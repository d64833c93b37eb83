//! The parser of Vim script code.
use crate::data::{optional_text, VimModule, VimModuleModel, VimPlugin};
use crate::module::{lemma_outline_module, module_of, read_module};
use crate::plugin::{
    by_section, found_for, is_script, law_entry_is_selected, law_listing, law_script, select_section, selected_section, without_sections, PluginModules,
    WalkStep, SECTION_COUNT,
};
use crate::syntax::{outline, SyntaxModel};
use crate::treesitter::{
    fits_tree, is_syntax_of, is_vim_grammar, parse_outline, parser_language, reads_whole_text,
};
use std::path::PathBuf;
use tree_sitter::{LanguageError, Parser};
use vstd::prelude::*;

verus! {

/// What can go wrong while a plugin is parsed.
#[derive(Debug)]
pub enum Error {
    /// The parser does not take the grammar of Vim script.
    GrammarError(LanguageError),
    /// The parser gave no syntax tree.
    ParsingFailure,
    /// A file could not be read.
    IoError(std::io::Error),
    /// The directory of a plugin could not be walked over.
    WalkError(walkdir::Error),
}

/// A parser of Vim script code.
pub struct VimParser {
    parser: Parser,
}

/// Whether a module is what this code declares: it is read from a syntax tree of the code.
pub open spec fn is_module_of(code: Seq<char>, module: VimModuleModel) -> bool {
    exists|tree: SyntaxModel| #[trigger] is_syntax_of(code, tree) && module == module_of(tree)
}

/// The module, read from the file at a path.
pub open spec fn at_path(module: VimModuleModel, path: PathBuf) -> VimModuleModel {
    VimModuleModel { path: Some(path), ..module }
}

/// Whether a module is what the file at a path declares, where the file holds this code.
pub open spec fn is_module_at(path: PathBuf, code: Seq<char>, module: VimModuleModel) -> bool {
    exists|m: VimModuleModel| #[trigger] is_module_of(code, m) && module == at_path(m, path)
}

/// The section for which the file at a step of a walk is read, if it is.
pub open spec fn step_section(step: WalkStep) -> Option<nat> {
    match step {
        WalkStep::Entry(entry) => selected_section(
            entry.is_file,
            entry.file_name@,
            optional_text(entry.section_name),
        ),
        WalkStep::Failed(_) => None,
    }
}

/// Whether a step of a walk can be taken: a file of Vim script is below the root, so that it has a
/// section name, and code that is to be parsed is not too long.
pub open spec fn step_is_valid(step: WalkStep) -> bool {
    match step {
        WalkStep::Entry(entry) => {
            &&& is_script(entry.is_file, entry.file_name@) ==> entry.section_name is Some
            &&& step_section(step) is Some && entry.contents is Ok ==> fits_tree(
                entry.contents->Ok_0@,
            )
        },
        WalkStep::Failed(_) => true,
    }
}

/// Whether the parsing of a plugin ends in an error at this step.
pub open spec fn step_fails(step: WalkStep, has_grammar: bool) -> bool {
    match step {
        WalkStep::Entry(entry) => step_section(step) is Some && (entry.contents is Err
            || !has_grammar),
        WalkStep::Failed(_) => true,
    }
}

/// Whether code is parsed at this step.
pub open spec fn step_parses(step: WalkStep) -> bool {
    step_section(step) is Some && step->Entry_0.contents is Ok
}

/// Whether this is the error of a step that fails.
pub open spec fn is_step_error(step: WalkStep, error: Error) -> bool {
    match step {
        WalkStep::Entry(entry) => match entry.contents {
            Ok(_) => error is ParsingFailure,
            Err(e) => error == Error::IoError(e),
        },
        WalkStep::Failed(e) => error == Error::WalkError(e),
    }
}

/// Whether these are the modules of the files that a walk selects, each with its section, in the
/// order of the walk.
pub open spec fn are_found_by(found: Seq<(nat, VimModuleModel)>, steps: Seq<WalkStep>) -> bool
    decreases steps.len(),
{
    if steps.len() == 0 {
        found.len() == 0
    } else {
        match step_section(steps.last()) {
            None => are_found_by(found, steps.drop_last()),
            Some(section) => {
                &&& found.len() > 0
                &&& are_found_by(found.drop_last(), steps.drop_last())
                &&& found.last().0 == section
                &&& steps.last()->Entry_0.contents is Ok
                &&& is_module_at(
                    steps.last()->Entry_0.path,
                    steps.last()->Entry_0.contents->Ok_0@,
                    found.last().1,
                )
            },
        }
    }
}

/// Whether these are the modules of a plugin, given a walk over its directory.
pub open spec fn is_plugin_of(steps: Seq<WalkStep>, plugin: Seq<VimModuleModel>) -> bool {
    exists|found: Seq<(nat, VimModuleModel)>| #[trigger]
        are_found_by(found, steps) && plugin == without_sections(by_section(found))
}

/// How many levels of a syntax tree are read below its root.
const OUTLINE_DEPTH: usize = 4;

impl VimParser {
    /// Whether the parser was given the grammar of Vim script, without which it parses nothing.
    pub closed spec fn has_grammar(&self) -> bool {
        parser_language(self.parser) is Some
    }

    /// The parser holds no other grammar, and nothing keeps it from reading a whole text.
    pub closed spec fn wf(&self) -> bool {
        &&& reads_whole_text(self.parser)
        &&& parser_language(self.parser) matches Some(language) ==> is_vim_grammar(language)
    }

    /// Makes a parser of Vim script code.
    pub fn new() -> (r: Result<VimParser, Error>)
        ensures
            r matches Ok(parser) && parser.wf() && parser.has_grammar(),
    {
        let mut parser: Parser = Parser::new();
        match parser.set_language(&tree_sitter_vim::language()) {
            Ok(()) => Ok(VimParser { parser }),
            Err(e) => Err(Error::GrammarError(e)),
        }
    }

    /// Parses and returns metadata for a single module (a.k.a. file) of vimscript code.
    pub fn parse_module_str(&mut self, code: &str) -> (r: Result<VimModule, Error>)
        requires
            old(self).wf(),
            fits_tree(code@),
        ensures
            final(self).wf(),
            final(self).has_grammar() == old(self).has_grammar(),
            match r {
                Ok(module) => old(self).has_grammar() && is_module_of(code@, module@),
                Err(e) => !old(self).has_grammar() && e is ParsingFailure,
            },
    {
        match parse_outline(&mut self.parser, code, OUTLINE_DEPTH) {
            None => Err(Error::ParsingFailure),
            Some(root) => {
                let module: VimModule = read_module(&root);
                proof {
                    let tree = choose|tree: SyntaxModel| #[trigger]
                        is_syntax_of(code@, tree) && root@ == outline(tree, 4);
                    lemma_outline_module(tree);
                }
                Ok(module)
            },
        }
    }

    /// Parses and returns metadata for a single module (a.k.a. file) of vimscript code, given what
    /// reading the file gave.
    pub fn parse_module_file(&mut self, path: PathBuf, contents: Result<String, std::io::Error>) -> (r:
        Result<VimModule, Error>)
        requires
            old(self).wf(),
            contents matches Ok(code) ==> fits_tree(code@),
        ensures
            final(self).wf(),
            final(self).has_grammar() == old(self).has_grammar(),
            contents is Err ==> *final(self) == *old(self),
            match r {
                Ok(module) => old(self).has_grammar() && (contents matches Ok(code)
                    && is_module_at(path, code@, module@)),
                Err(error) => match contents {
                    Ok(_) => !old(self).has_grammar() && error is ParsingFailure,
                    Err(e) => error == Error::IoError(e),
                },
            },
    {
        match contents {
            Err(e) => Err(Error::IoError(e)),
            Ok(code) => match self.parse_module_str(code.as_str()) {
                Err(e) => Err(e),
                Ok(module) => {
                    let at = VimModule { path: Some(path), doc: module.doc, nodes: module.nodes };
                    proof {
                        assert(at@ == at_path(module@, path));
                    }
                    Ok(at)
                },
            },
        }
    }

    /// Parses all supported metadata from a single plugin, given a walk over its directory.
    pub fn parse_plugin_dir(&mut self, steps: Vec<WalkStep>) -> (r: Result<VimPlugin, Error>)
        requires
            old(self).wf(),
            forall|i: int| 0 <= i < steps@.len() ==> step_is_valid(#[trigger] steps@[i]),
        ensures
            final(self).wf(),
            final(self).has_grammar() == old(self).has_grammar(),
            (forall|i: int| 0 <= i < steps@.len() ==> !step_parses(#[trigger] steps@[i]))
                ==> *final(self) == *old(self),
            match r {
                Ok(plugin) => {
                    &&& forall|i: int|
                        0 <= i < steps@.len() ==> !step_fails(
                            #[trigger] steps@[i],
                            old(self).has_grammar(),
                        )
                    &&& is_plugin_of(steps@, plugin@)
                },
                Err(error) => exists|k: int|
                    0 <= k < steps@.len() && step_fails(#[trigger] steps@[k], old(self).has_grammar())
                        && is_step_error(steps@[k], error) && forall|i: int|
                        0 <= i < k ==> !step_fails(#[trigger] steps@[i], old(self).has_grammar()),
            },
    {
        let mut modules: PluginModules = PluginModules::new();
        let ghost all = steps@;
        let ghost has_grammar = self.has_grammar();
        proof {
            assert(all.take(0) =~= Seq::<WalkStep>::empty());
        }
        for step in it: steps
            invariant
                it.seq() == all,
                self.wf(),
                self.has_grammar() == has_grammar,
                has_grammar == old(self).has_grammar(),
                forall|i: int| 0 <= i < all.len() ==> step_is_valid(#[trigger] all[i]),
                forall|i: int|
                    0 <= i < it.index() ==> !step_fails(#[trigger] all[i], has_grammar),
                (forall|i: int| 0 <= i < it.index() ==> !step_parses(#[trigger] all[i])) ==> *self
                    == *old(self),
                modules.wf(),
                are_found_by(modules@, all.take(it.index() as int)),
        {
            let ghost k = it.index() as int;
            proof {
                assert(step == all[k]);
                assert(all.take(k + 1).drop_last() =~= all.take(k));
                assert(all.take(k + 1).last() == all[k]);
            }
            match step {
                WalkStep::Failed(e) => {
                    return Err(Error::WalkError(e));
                },
                WalkStep::Entry(entry) => {
                    let section: Option<usize> = select_section(
                        entry.is_file,
                        &entry.file_name,
                        &entry.section_name,
                    );
                    if let Some(section) = section {
                        match self.parse_module_file(entry.path, entry.contents) {
                            Err(e) => {
                                return Err(e);
                            },
                            Ok(module) => {
                                let ghost before = modules@;
                                modules.insert(section, module);
                                proof {
                                    assert(modules@.drop_last() =~= before);
                                }
                            },
                        }
                    }
                },
            }
        }
        proof {
            assert(all.take(all.len() as int) =~= all);
        }
        Ok(modules.into_plugin())
    }
}

impl Default for VimParser {
    /// A parser without a grammar.
    fn default() -> (r: VimParser)
        ensures
            r.wf(),
            !r.has_grammar(),
    {
        VimParser { parser: Parser::new() }
    }
}

/// The steps of a walk at which a file is read.
pub open spec fn selected_steps(steps: Seq<WalkStep>) -> Seq<WalkStep> {
    steps.filter(|step: WalkStep| step_section(step) is Some)
}

proof fn lemma_selected_step(steps: Seq<WalkStep>)
    requires
        steps.len() > 0,
    ensures
        selected_steps(steps) == if step_section(steps.last()) is Some {
            selected_steps(steps.drop_last()).push(steps.last())
        } else {
            selected_steps(steps.drop_last())
        },
{
    assert(steps =~= steps.drop_last().push(steps.last()));
    steps.drop_last().lemma_filter_push(
        steps.last(),
        |step: WalkStep| step_section(step) is Some,
    );
}

/// There is one module for each file that a walk selects, in the order of the walk: with the
/// section and the path of that file, and with what its code declares.
pub proof fn law_one_module_for_each_selected_file(
    found: Seq<(nat, VimModuleModel)>,
    steps: Seq<WalkStep>,
)
    requires
        are_found_by(found, steps),
    ensures
        found.len() == selected_steps(steps).len(),
        forall|i: int|
            0 <= i < found.len() ==> {
                &&& step_section(selected_steps(steps)[i]) == Some((#[trigger] found[i]).0)
                &&& found[i].0 < SECTION_COUNT
                &&& found[i].1.path == Some(selected_steps(steps)[i]->Entry_0.path)
                &&& selected_steps(steps)[i]->Entry_0.contents is Ok
                &&& is_module_at(
                    selected_steps(steps)[i]->Entry_0.path,
                    selected_steps(steps)[i]->Entry_0.contents->Ok_0@,
                    found[i].1,
                )
            },
    decreases steps.len(),
{
    if steps.len() == 0 {
        assert(selected_steps(steps) =~= steps);
    } else {
        lemma_selected_step(steps);
        let init = steps.drop_last();
        if step_section(steps.last()) is Some {
            law_one_module_for_each_selected_file(found.drop_last(), init);
            assert forall|i: int| 0 <= i < found.len() implies {
                &&& step_section(selected_steps(steps)[i]) == Some((#[trigger] found[i]).0)
                &&& found[i].0 < SECTION_COUNT
                &&& found[i].1.path == Some(selected_steps(steps)[i]->Entry_0.path)
                &&& selected_steps(steps)[i]->Entry_0.contents is Ok
                &&& is_module_at(
                    selected_steps(steps)[i]->Entry_0.path,
                    selected_steps(steps)[i]->Entry_0.contents->Ok_0@,
                    found[i].1,
                )
            } by {
                if i < found.len() - 1 {
                    assert(found[i] == found.drop_last()[i]);
                    assert(selected_steps(steps)[i] == selected_steps(init)[i]);
                }
            }
        } else {
            law_one_module_for_each_selected_file(found, init);
        }
    }
}

/// What a walk comes across beside the files that it selects does not matter to the modules that
/// are found.
pub proof fn law_other_entries_are_ignored(
    found: Seq<(nat, VimModuleModel)>,
    steps: Seq<WalkStep>,
)
    ensures
        are_found_by(found, steps) <==> are_found_by(found, selected_steps(steps)),
    decreases steps.len(),
{
    if steps.len() == 0 {
        assert(selected_steps(steps) =~= steps);
    } else {
        lemma_selected_step(steps);
        let init = steps.drop_last();
        if step_section(steps.last()) is Some {
            assert(selected_steps(steps).drop_last() =~= selected_steps(init));
            assert(selected_steps(steps).last() == steps.last());
            law_other_entries_are_ignored(found.drop_last(), init);
        } else {
            law_other_entries_are_ignored(found, init);
        }
    }
}

/// A file is read at a step just if the entry at that step is a regular file, its name ends with
/// `.vim`, and it lies in a section.
pub proof fn law_step_is_selected(step: WalkStep, i: nat)
    ensures
        step_section(step) == Some(i) <==> {
            &&& step matches WalkStep::Entry(entry)
            &&& entry.is_file
            &&& entry.file_name@.len() >= 4
            &&& entry.file_name@.skip(entry.file_name@.len() - 4) == seq!['.', 'v', 'i', 'm']
            &&& i < 9
            &&& entry.section_name matches Some(name)
            &&& name@ == seq![
                "plugin"@,
                "instant"@,
                "autoload"@,
                "syntax"@,
                "indent"@,
                "ftdetect"@,
                "ftplugin"@,
                "spell"@,
                "colors"@,
            ][i as int]
        },
{
    if let WalkStep::Entry(entry) = step {
        law_entry_is_selected(
            entry.is_file,
            entry.file_name@,
            optional_text(entry.section_name),
            i,
        );
    }
}

/// A step can be taken unless it is at a file of Vim script that has no section name, or at one
/// that is read and holds more code than a tree can.
pub proof fn law_step_can_be_taken(step: WalkStep)
    ensures
        !step_is_valid(step) <==> {
            &&& step matches WalkStep::Entry(entry)
            &&& {
                ||| entry.section_name is None && entry.is_file && entry.file_name@.len() >= 4
                    && entry.file_name@.skip(entry.file_name@.len() - 4) == seq!['.', 'v', 'i', 'm']
                ||| step_section(step) is Some && (entry.contents matches Ok(code)
                    && vstd::utf8::encode_utf8(code@).len() > 0xffff_ffff)
            }
        },
{
    if let WalkStep::Entry(entry) = step {
        law_script(entry.is_file, entry.file_name@);
    }
}

/// Parsing fails at a step just if the walk failed there, or if a file is read there that could not
/// be read or that the parser has no grammar for.
pub proof fn law_step_fails(step: WalkStep, has_grammar: bool)
    ensures
        step_fails(step, has_grammar) <==> match step {
            WalkStep::Failed(_) => true,
            WalkStep::Entry(entry) => step_section(step) is Some && (!has_grammar || entry.contents
                is Err),
        },
        step_parses(step) <==> match step {
            WalkStep::Failed(_) => false,
            WalkStep::Entry(entry) => step_section(step) is Some && entry.contents is Ok,
        },
{
}

/// The error of a step is the one that the walk or the read gave; where the code was read, it is
/// that it was not parsed.
pub proof fn law_error_of_a_step(step: WalkStep, error: Error)
    requires
        is_step_error(step, error),
    ensures
        step matches WalkStep::Failed(e) ==> error == Error::WalkError(e),
        step matches WalkStep::Entry(entry) ==> match entry.contents {
            Ok(_) => error is ParsingFailure,
            Err(e) => error == Error::IoError(e),
        },
{
}

/// What a code declares is read from a syntax tree of the code, and has no path.
pub proof fn law_module_of_code(code: Seq<char>, module: VimModuleModel) -> (tree: SyntaxModel)
    requires
        is_module_of(code, module),
    ensures
        is_syntax_of(code, tree),
        module.path is None,
        module.doc == module_of(tree).doc,
        module.nodes == module_of(tree).nodes,
{
    choose|tree: SyntaxModel| #[trigger] is_syntax_of(code, tree) && module == module_of(tree)
}

/// What a file declares is read from a syntax tree of its code, and has the path of the file.
pub proof fn law_module_of_a_file(path: PathBuf, code: Seq<char>, module: VimModuleModel) -> (tree:
    SyntaxModel)
    requires
        is_module_at(path, code, module),
    ensures
        is_syntax_of(code, tree),
        module.path == Some(path),
        module.doc == module_of(tree).doc,
        module.nodes == module_of(tree).nodes,
{
    let m = choose|m: VimModuleModel| #[trigger]
        is_module_of(code, m) && module == at_path(m, path);
    law_module_of_code(code, m)
}

/// A plugin lists one module for each step at which a file is read: with the path of that file, and
/// with what its code declares. They are listed in the order of sections, and within a section in
/// the order of the walk.
pub proof fn law_plugin_lists_the_selected_files(
    steps: Seq<WalkStep>,
    plugin: Seq<VimModuleModel>,
) -> (r: (Seq<(nat, VimModuleModel)>, Seq<(nat, VimModuleModel)>))
    requires
        is_plugin_of(steps, plugin),
    ensures
        ({
            let selected = steps.filter(|step: WalkStep| step_section(step) is Some);
            let (found, listed) = r;
            &&& found.len() == selected.len()
            &&& forall|i: int|
                0 <= i < found.len() ==> {
                    &&& step_section(selected[i]) == Some((#[trigger] found[i]).0)
                    &&& selected[i]->Entry_0.contents is Ok
                    &&& is_module_at(
                        selected[i]->Entry_0.path,
                        selected[i]->Entry_0.contents->Ok_0@,
                        found[i].1,
                    )
                }
            &&& listed.to_multiset() == found.to_multiset()
            &&& forall|i: int, j: int|
                0 <= i <= j < listed.len() ==> (#[trigger] listed[i]).0 <= (#[trigger] listed[j]).0
            &&& forall|section: nat|
                listed.filter(#[trigger] found_for(section)) == found.filter(found_for(section))
            &&& plugin.len() == listed.len() == found.len()
            &&& forall|i: int| 0 <= i < plugin.len() ==> #[trigger] plugin[i] == listed[i].1
        }),
{
    let found = choose|found: Seq<(nat, VimModuleModel)>| #[trigger]
        are_found_by(found, steps) && plugin == without_sections(by_section(found));
    law_one_module_for_each_selected_file(found, steps);
    law_listing(found);
    (found, by_section(found))
}

} // verus!

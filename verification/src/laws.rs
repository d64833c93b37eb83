//! What several calls of a parser have to do with each other.
//!
//! The grammar of Vim script asks the C library to which class a character belongs. Code with
//! characters on which C libraries or locales disagree can have more than one syntax tree:
//! `endfunctioné` ends a function where `é` is no letter, and does not where it is one. What is
//! said here of equal results is said of code for which this does not matter
//! ([`is_read_in_one_way`]).
use crate::data::VimModuleModel;
use crate::module::{lemma_outline_module, module_of};
use crate::parser::{
    are_found_by, at_path, is_module_at, is_module_of, is_plugin_of,
    law_one_module_for_each_selected_file, selected_steps, step_fails, step_section,
};
use crate::plugin::{
    by_section, in_section, in_sections_before, law_one_section_is_listed_as_found,
    law_what_is_found_is_listed, lemma_in_section_all, of_section, without_sections, WalkStep,
    SECTION_COUNT,
};
use crate::syntax::{outline, SyntaxModel};
use crate::treesitter::is_syntax_of;
use std::path::PathBuf;
use vstd::prelude::*;

verus! {

/// Whether all syntax trees of a code agree in the levels from which a module is read.
pub open spec fn is_read_in_one_way(code: Seq<char>) -> bool {
    forall|a: SyntaxModel, b: SyntaxModel| #[trigger]
        is_syntax_of(code, a) && #[trigger] is_syntax_of(code, b) ==> outline(a, 4) == outline(b, 4)
}

/// The same code always gives the same module, whatever was parsed before, and by whichever
/// parser.
pub proof fn law_same_code_same_module(code: Seq<char>, a: VimModuleModel, b: VimModuleModel)
    requires
        is_read_in_one_way(code),
        is_module_of(code, a),
        is_module_of(code, b),
    ensures
        a == b,
{
    let tree_a = choose|tree: SyntaxModel| #[trigger]
        is_syntax_of(code, tree) && a == module_of(tree);
    let tree_b = choose|tree: SyntaxModel| #[trigger]
        is_syntax_of(code, tree) && b == module_of(tree);
    lemma_outline_module(tree_a);
    lemma_outline_module(tree_b);
}

/// A file gives what its code gives, with the path of the file.
pub proof fn law_file_gives_what_its_code_gives(
    path: PathBuf,
    code: Seq<char>,
    from_file: VimModuleModel,
    from_code: VimModuleModel,
)
    requires
        is_read_in_one_way(code),
        is_module_at(path, code, from_file),
        is_module_of(code, from_code),
    ensures
        from_file == at_path(from_code, path),
{
    let m = choose|m: VimModuleModel| #[trigger]
        is_module_of(code, m) && from_file == at_path(m, path);
    law_same_code_same_module(code, m, from_code);
}

/// Two files with the same code give the same module, but for the path. So a module of a plugin,
/// which has the path below the root, is what its file gives when it is parsed alone.
pub proof fn law_files_with_the_same_code(
    path_a: PathBuf,
    path_b: PathBuf,
    code: Seq<char>,
    a: VimModuleModel,
    b: VimModuleModel,
)
    requires
        is_read_in_one_way(code),
        is_module_at(path_a, code, a),
        is_module_at(path_b, code, b),
    ensures
        a == at_path(b, path_a),
        b == at_path(a, path_b),
{
    let m = choose|m: VimModuleModel| #[trigger] is_module_of(code, m) && b == at_path(m, path_b);
    law_file_gives_what_its_code_gives(path_a, code, a, m);
}

/// The code of the file at a step of a walk, if it could be read.
pub open spec fn step_code(step: WalkStep) -> Seq<char> {
    step->Entry_0.contents->Ok_0@
}

/// Every module that a plugin lists is what one of the selected files declares, with the path of
/// that file below the root.
pub proof fn law_listed_module_is_that_of_a_file(
    steps: Seq<WalkStep>,
    plugin: Seq<VimModuleModel>,
    j: int,
) -> (i: int)
    requires
        is_plugin_of(steps, plugin),
        0 <= j < plugin.len(),
    ensures
        0 <= i < selected_steps(steps).len(),
        selected_steps(steps)[i]->Entry_0.contents is Ok,
        is_module_at(
            selected_steps(steps)[i]->Entry_0.path,
            step_code(selected_steps(steps)[i]),
            plugin[j],
        ),
{
    broadcast use vstd::seq_lib::group_to_multiset_ensures;

    let found = choose|found: Seq<(nat, VimModuleModel)>| #[trigger]
        are_found_by(found, steps) && plugin == without_sections(by_section(found));
    law_one_module_for_each_selected_file(found, steps);
    law_what_is_found_is_listed(found);
    let listed = by_section(found)[j];
    assert(by_section(found).contains(listed));
    assert(found.to_multiset().count(listed) > 0);
    assert(found.contains(listed));
    let i = choose|i: int| 0 <= i < found.len() && found[i] == listed;
    assert(found[i] == listed);
    i
}

/// Whether two steps select the same file, in whichever directory the walks were: it belongs to
/// the same section and has the same path below the root, and both read the same code from it or
/// neither could read it.
pub open spec fn is_same_file(a: WalkStep, b: WalkStep) -> bool {
    &&& step_section(a) == step_section(b)
    &&& a->Entry_0.path == b->Entry_0.path
    &&& match (a->Entry_0.contents, b->Entry_0.contents) {
        (Ok(code_a), Ok(code_b)) => code_a@ == code_b@,
        (Err(_), Err(_)) => true,
        _ => false,
    }
}

/// Whether the steps of two lists select the same files in the same order.
pub open spec fn are_same_files(a: Seq<WalkStep>, b: Seq<WalkStep>) -> bool {
    a.len() == b.len() && forall|i: int|
        0 <= i < a.len() ==> is_same_file(#[trigger] a[i], #[trigger] b[i])
}

/// Whether all code that these steps read is read in one way.
pub open spec fn are_read_in_one_way(steps: Seq<WalkStep>) -> bool {
    forall|i: int|
        0 <= i < steps.len() && (#[trigger] steps[i])->Entry_0.contents is Ok
            ==> is_read_in_one_way(step_code(steps[i]))
}

/// Walks that select the same files find the same modules, whatever else they come across.
pub proof fn law_same_files_same_modules(
    found_a: Seq<(nat, VimModuleModel)>,
    a: Seq<WalkStep>,
    found_b: Seq<(nat, VimModuleModel)>,
    b: Seq<WalkStep>,
)
    requires
        are_found_by(found_a, a),
        are_found_by(found_b, b),
        are_same_files(selected_steps(a), selected_steps(b)),
        are_read_in_one_way(selected_steps(a)),
    ensures
        found_a == found_b,
{
    law_one_module_for_each_selected_file(found_a, a);
    law_one_module_for_each_selected_file(found_b, b);
    assert forall|i: int| 0 <= i < found_a.len() implies found_a[i] == found_b[i] by {
        let step_a = selected_steps(a)[i];
        let step_b = selected_steps(b)[i];
        assert(is_same_file(step_a, step_b));
        assert(found_a[i].0 == found_b[i].0);
        law_files_with_the_same_code(
            step_a->Entry_0.path,
            step_b->Entry_0.path,
            step_code(step_a),
            found_a[i].1,
            found_b[i].1,
        );
    }
    assert(found_a =~= found_b);
}

/// Directories that hold the same files in their sections give the same plugin, whatever else they
/// hold.
pub proof fn law_same_files_same_plugin(
    a: Seq<WalkStep>,
    plugin_a: Seq<VimModuleModel>,
    b: Seq<WalkStep>,
    plugin_b: Seq<VimModuleModel>,
)
    requires
        is_plugin_of(a, plugin_a),
        is_plugin_of(b, plugin_b),
        are_same_files(selected_steps(a), selected_steps(b)),
        are_read_in_one_way(selected_steps(a)),
    ensures
        plugin_a == plugin_b,
{
    let found_a = choose|found: Seq<(nat, VimModuleModel)>| #[trigger]
        are_found_by(found, a) && plugin_a == without_sections(by_section(found));
    let found_b = choose|found: Seq<(nat, VimModuleModel)>| #[trigger]
        are_found_by(found, b) && plugin_b == without_sections(by_section(found));
    law_same_files_same_modules(found_a, a, found_b, b);
}

/// Whether the parsing of a plugin ends in an error at one of these steps.
pub open spec fn some_step_fails(steps: Seq<WalkStep>, has_grammar: bool) -> bool {
    exists|i: int| 0 <= i < steps.len() && step_fails(#[trigger] steps[i], has_grammar)
}

/// Whether a walk came to its end.
pub open spec fn is_complete(steps: Seq<WalkStep>) -> bool {
    forall|i: int| 0 <= i < steps.len() ==> !(#[trigger] steps[i] is Failed)
}

proof fn lemma_only_selected_steps_fail(steps: Seq<WalkStep>, has_grammar: bool)
    requires
        is_complete(steps),
    ensures
        some_step_fails(steps, has_grammar) <==> some_step_fails(
            selected_steps(steps),
            has_grammar,
        ),
{
    let keep = |step: WalkStep| step_section(step) is Some;
    let selected = selected_steps(steps);
    if some_step_fails(steps, has_grammar) {
        let i = choose|i: int|
            0 <= i < steps.len() && step_fails(#[trigger] steps[i], has_grammar);
        steps.lemma_filter_contains(keep, i);
        let k = choose|k: int| 0 <= k < selected.len() && selected[k] == steps[i];
        assert(step_fails(selected[k], has_grammar));
    }
    if some_step_fails(selected, has_grammar) {
        let k = choose|k: int|
            0 <= k < selected.len() && step_fails(#[trigger] selected[k], has_grammar);
        assert(selected.contains(selected[k]));
        steps.lemma_filter_contains_rev(keep, selected[k]);
        let i = choose|i: int| 0 <= i < steps.len() && steps[i] == selected[k];
        assert(step_fails(steps[i], has_grammar));
    }
}

/// Where two walks come to their end and select the same files, parsing fails for both or for
/// neither, whatever else they come across.
pub proof fn law_same_files_fail_alike(a: Seq<WalkStep>, b: Seq<WalkStep>, has_grammar: bool)
    requires
        is_complete(a),
        is_complete(b),
        are_same_files(selected_steps(a), selected_steps(b)),
    ensures
        some_step_fails(a, has_grammar) <==> some_step_fails(b, has_grammar),
{
    lemma_only_selected_steps_fail(a, has_grammar);
    lemma_only_selected_steps_fail(b, has_grammar);
    let sel_a = selected_steps(a);
    let sel_b = selected_steps(b);
    let keep = |step: WalkStep| step_section(step) is Some;
    assert forall|i: int| 0 <= i < sel_a.len() implies step_fails(#[trigger] sel_a[i], has_grammar)
        == step_fails(sel_b[i], has_grammar) by {
        a.lemma_filter_pred(keep, i);
        b.lemma_filter_pred(keep, i);
        assert(is_same_file(sel_a[i], sel_b[i]));
    }
    if some_step_fails(sel_a, has_grammar) {
        let i = choose|i: int|
            0 <= i < sel_a.len() && step_fails(#[trigger] sel_a[i], has_grammar);
        assert(step_fails(sel_b[i], has_grammar));
    }
    if some_step_fails(sel_b, has_grammar) {
        let i = choose|i: int|
            0 <= i < sel_b.len() && step_fails(#[trigger] sel_b[i], has_grammar);
        assert(step_fails(sel_a[i], has_grammar));
    }
}

/// Selects the steps at which a file of one section is read.
pub open spec fn of_section_step(section: nat) -> spec_fn(WalkStep) -> bool {
    |step: WalkStep| step_section(step) == Some(section)
}

/// The steps of a walk at which a file of one section is read.
pub open spec fn section_steps(steps: Seq<WalkStep>, section: nat) -> Seq<WalkStep> {
    steps.filter(of_section_step(section))
}

proof fn lemma_section_found(
    found: Seq<(nat, VimModuleModel)>,
    steps: Seq<WalkStep>,
    section: nat,
)
    requires
        are_found_by(found, steps),
    ensures
        are_found_by(in_section(found, section), section_steps(steps, section)),
    decreases steps.len(),
{
    if steps.len() == 0 {
        assert(section_steps(steps, section) =~= steps);
        assert(in_section(found, section) =~= found);
    } else {
        let init = steps.drop_last();
        let last = steps.last();
        assert(steps =~= init.push(last));
        init.lemma_filter_push(last, of_section_step(section));
        if step_section(last) is Some {
            let found_init = found.drop_last();
            assert(found =~= found_init.push(found.last()));
            found_init.lemma_filter_push(found.last(), of_section(section));
            lemma_section_found(found_init, init, section);
            if step_section(last) == Some(section) {
                assert(section_steps(steps, section).drop_last() =~= section_steps(init, section));
                assert(in_section(found, section).drop_last() =~= in_section(found_init, section));
            }
        } else {
            lemma_section_found(found, init, section);
        }
    }
}

/// A section stands alone: what is found for it is what the files of that section alone give, and
/// they are listed as a plugin of just that section would list them.
pub proof fn law_section_stands_alone(
    found: Seq<(nat, VimModuleModel)>,
    steps: Seq<WalkStep>,
    section: nat,
)
    requires
        are_found_by(found, steps),
        section < SECTION_COUNT,
    ensures
        are_found_by(in_section(found, section), section_steps(steps, section)),
        is_plugin_of(
            section_steps(steps, section),
            without_sections(in_section(found, section)),
        ),
{
    lemma_section_found(found, steps, section);
    lemma_in_section_all(found, section);
    law_one_section_is_listed_as_found(in_section(found, section), section);
}

proof fn lemma_section_steps_are_selected(steps: Seq<WalkStep>, section: nat)
    ensures
        selected_steps(section_steps(steps, section)) == section_steps(steps, section),
    decreases steps.len(),
{
    let keep = |step: WalkStep| step_section(step) is Some;
    if steps.len() == 0 {
        assert(section_steps(steps, section) =~= steps);
        assert(selected_steps(steps) =~= steps);
    } else {
        let init = steps.drop_last();
        assert(steps =~= init.push(steps.last()));
        init.lemma_filter_push(steps.last(), of_section_step(section));
        lemma_section_steps_are_selected(init, section);
        section_steps(init, section).lemma_filter_push(steps.last(), keep);
    }
}

proof fn lemma_sections_before_parts(
    found: Seq<(nat, VimModuleModel)>,
    parts: Seq<Seq<VimModuleModel>>,
    n: nat,
)
    requires
        n <= parts.len(),
        forall|s: int|
            0 <= s < parts.len() ==> #[trigger] parts[s] == without_sections(
                in_section(found, s as nat),
            ),
    ensures
        without_sections(in_sections_before(found, n)) == parts.take(n as int).flatten(),
    decreases n,
{
    if n == 0 {
        assert(parts.take(0) =~= Seq::empty());
        assert(without_sections(in_sections_before(found, 0)) =~= Seq::empty());
    } else {
        let last = (n - 1) as nat;
        lemma_sections_before_parts(found, parts, last);
        let init = parts.take(last as int);
        assert(parts.take(n as int) =~= init + seq![parts[last as int]]);
        vstd::seq_lib::lemma_flatten_concat(init, seq![parts[last as int]]);
        seq![parts[last as int]].lemma_flatten_singleton();
        assert(without_sections(in_sections_before(found, n)) =~= without_sections(
            in_sections_before(found, last),
        ) + without_sections(in_section(found, last)));
    }
}

/// A plugin is made of its sections: it lists what plugins with one section each would list, the
/// one after the other in the order of sections. Each of these can lie in a directory of its own,
/// with other things in it that are not selected.
pub proof fn law_plugin_is_made_of_its_sections(
    steps: Seq<WalkStep>,
    plugin: Seq<VimModuleModel>,
    walks: Seq<Seq<WalkStep>>,
    parts: Seq<Seq<VimModuleModel>>,
)
    requires
        is_plugin_of(steps, plugin),
        are_read_in_one_way(selected_steps(steps)),
        walks.len() == SECTION_COUNT,
        parts.len() == SECTION_COUNT,
        forall|s: int|
            0 <= s < SECTION_COUNT ==> are_same_files(
                section_steps(steps, s as nat),
                selected_steps(#[trigger] walks[s]),
            ),
        forall|s: int| 0 <= s < SECTION_COUNT ==> is_plugin_of(walks[s], #[trigger] parts[s]),
    ensures
        plugin == parts.flatten(),
{
    let found = choose|found: Seq<(nat, VimModuleModel)>| #[trigger]
        are_found_by(found, steps) && plugin == without_sections(by_section(found));
    assert forall|s: int| 0 <= s < parts.len() implies #[trigger] parts[s] == without_sections(
        in_section(found, s as nat),
    ) by {
        let section = s as nat;
        let own = section_steps(steps, section);
        law_section_stands_alone(found, steps, section);
        lemma_section_steps_are_selected(steps, section);
        lemma_section_is_read_in_one_way(steps, section);
        law_same_files_same_plugin(
            own,
            without_sections(in_section(found, section)),
            walks[s],
            parts[s],
        );
    }
    lemma_sections_before_parts(found, parts, SECTION_COUNT as nat);
    assert(parts.take(SECTION_COUNT as int) =~= parts);
}

proof fn lemma_section_is_read_in_one_way(steps: Seq<WalkStep>, section: nat)
    requires
        are_read_in_one_way(selected_steps(steps)),
    ensures
        are_read_in_one_way(section_steps(steps, section)),
{
    let keep = |step: WalkStep| step_section(step) is Some;
    let own = section_steps(steps, section);
    let selected = selected_steps(steps);
    assert forall|i: int|
        0 <= i < own.len() && (#[trigger] own[i])->Entry_0.contents is Ok implies is_read_in_one_way(
        step_code(own[i]),
    ) by {
        steps.lemma_filter_pred(of_section_step(section), i);
        assert(own.contains(own[i]));
        steps.lemma_filter_contains_rev(of_section_step(section), own[i]);
        let k = choose|k: int| 0 <= k < steps.len() && steps[k] == own[i];
        steps.lemma_filter_contains(keep, k);
        let j = choose|j: int| 0 <= j < selected.len() && selected[j] == own[i];
        assert(is_read_in_one_way(step_code(selected[j])));
    }
}

} // verus!

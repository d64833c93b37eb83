//! Which files of a plugin are read, and the order in which their modules are listed.
use crate::data::{module_models, optional_text, VimModule, VimModuleModel, VimPlugin};
use crate::text::{ends_with, text_ends_with, text_is};
use std::path::PathBuf;
use vstd::prelude::*;
use walkdir::Error as WalkdirError;

verus! {

/// An error of reading a file. It is carried along; nothing is claimed of it.
#[verifier::external_type_specification]
#[verifier::external_body]
pub struct ExIoError(std::io::Error);

/// An error of walking over a directory. It is carried along; nothing is claimed of it.
#[verifier::external_type_specification]
#[verifier::external_body]
pub struct ExWalkError(WalkdirError);

/// What was found at one place below the root of a plugin.
pub struct PluginEntry {
    /// Whether this is a regular file.
    pub is_file: bool,
    /// The last component of the path.
    pub file_name: String,
    /// The first component of the path below the root, unless this is the root itself.
    pub section_name: Option<String>,
    /// The path below the root.
    pub path: PathBuf,
    /// What reading the file gave. Only looked at for a file that is selected.
    pub contents: Result<String, std::io::Error>,
}

/// One step of a walk over the directory of a plugin.
pub enum WalkStep {
    Entry(PluginEntry),
    Failed(walkdir::Error),
}

/// How many sections a plugin has.
pub const SECTION_COUNT: usize = 9;

/// The sections of a plugin, in the order in which they are listed.
pub open spec fn section_names() -> Seq<Seq<char>> {
    seq![
        "plugin"@,
        "instant"@,
        "autoload"@,
        "syntax"@,
        "indent"@,
        "ftdetect"@,
        "ftplugin"@,
        "spell"@,
        "colors"@,
    ]
}

/// The place of a section in the order of sections.
pub open spec fn section_index(name: Seq<char>) -> Option<nat> {
    if name == "plugin"@ {
        Some(0)
    } else if name == "instant"@ {
        Some(1)
    } else if name == "autoload"@ {
        Some(2)
    } else if name == "syntax"@ {
        Some(3)
    } else if name == "indent"@ {
        Some(4)
    } else if name == "ftdetect"@ {
        Some(5)
    } else if name == "ftplugin"@ {
        Some(6)
    } else if name == "spell"@ {
        Some(7)
    } else if name == "colors"@ {
        Some(8)
    } else {
        None
    }
}

/// Whether an entry is a file of Vim script.
pub open spec fn is_script(is_file: bool, file_name: Seq<char>) -> bool {
    is_file && ends_with(file_name, ".vim"@)
}

/// The section of an entry that is selected: a file of Vim script in one of the sections.
pub open spec fn selected_section(
    is_file: bool,
    file_name: Seq<char>,
    section_name: Option<Seq<char>>,
) -> Option<nat> {
    if is_script(is_file, file_name) {
        match section_name {
            Some(name) => section_index(name),
            None => None,
        }
    } else {
        None
    }
}

/// Finds the place of a section in the order of sections.
pub fn find_section(name: &String) -> (r: Option<usize>)
    ensures
        match r {
            Some(i) => section_index(name@) == Some(i as nat) && i < SECTION_COUNT,
            None => section_index(name@) is None,
        },
{
    if text_is(name, "plugin") {
        Some(0)
    } else if text_is(name, "instant") {
        Some(1)
    } else if text_is(name, "autoload") {
        Some(2)
    } else if text_is(name, "syntax") {
        Some(3)
    } else if text_is(name, "indent") {
        Some(4)
    } else if text_is(name, "ftdetect") {
        Some(5)
    } else if text_is(name, "ftplugin") {
        Some(6)
    } else if text_is(name, "spell") {
        Some(7)
    } else if text_is(name, "colors") {
        Some(8)
    } else {
        None
    }
}

/// Whether the file at an entry is to be read, and for which section.
pub fn select_section(is_file: bool, file_name: &String, section_name: &Option<String>) -> (r:
    Option<usize>)
    requires
        is_script(is_file, file_name@) ==> section_name is Some,
    ensures
        match r {
            Some(i) => selected_section(is_file, file_name@, optional_text(*section_name)) == Some(
                i as nat,
            ) && i < SECTION_COUNT,
            None => selected_section(is_file, file_name@, optional_text(*section_name)) is None,
        },
{
    if is_file && text_ends_with(file_name, ".vim") {
        match section_name {
            Some(name) => find_section(name),
            None => None,
        }
    } else {
        None
    }
}

/// Selects the modules that were found for one section.
pub open spec fn of_section(section: nat) -> spec_fn((nat, VimModuleModel)) -> bool {
    |f: (nat, VimModuleModel)| f.0 == section
}

/// The modules that were found for one section, in the order in which they were found.
pub open spec fn in_section(found: Seq<(nat, VimModuleModel)>, section: nat) -> Seq<
    (nat, VimModuleModel),
> {
    found.filter(of_section(section))
}

/// The modules of the first `n` sections, section by section.
pub open spec fn in_sections_before(found: Seq<(nat, VimModuleModel)>, n: nat) -> Seq<
    (nat, VimModuleModel),
>
    decreases n,
{
    if n == 0 {
        Seq::empty()
    } else {
        in_sections_before(found, (n - 1) as nat) + in_section(found, (n - 1) as nat)
    }
}

/// The modules of a plugin, section by section.
pub open spec fn by_section(found: Seq<(nat, VimModuleModel)>) -> Seq<(nat, VimModuleModel)> {
    in_sections_before(found, SECTION_COUNT as nat)
}

/// The modules without their sections.
pub open spec fn without_sections(found: Seq<(nat, VimModuleModel)>) -> Seq<VimModuleModel> {
    found.map_values(|f: (nat, VimModuleModel)| f.1)
}

proof fn lemma_in_section_push(
    found: Seq<(nat, VimModuleModel)>,
    next: (nat, VimModuleModel),
    section: nat,
)
    ensures
        in_section(found.push(next), section) == if next.0 == section {
            in_section(found, section).push(next)
        } else {
            in_section(found, section)
        },
{
    found.lemma_filter_push(next, of_section(section));
}

/// The modules found so far in the directory of a plugin.
pub struct PluginModules {
    sections: Vec<Vec<VimModule>>,
    found: Ghost<Seq<(nat, VimModuleModel)>>,
}

impl View for PluginModules {
    type V = Seq<(nat, VimModuleModel)>;

    closed spec fn view(&self) -> Seq<(nat, VimModuleModel)> {
        self.found@
    }
}

impl PluginModules {
    /// Each section holds the modules that were found for it.
    pub closed spec fn wf(&self) -> bool {
        &&& self.sections@.len() == SECTION_COUNT
        &&& forall|s: int|
            0 <= s < SECTION_COUNT ==> module_models((#[trigger] self.sections@[s])@) == without_sections(
                in_section(self.found@, s as nat),
            )
    }

    /// No modules.
    pub fn new() -> (r: PluginModules)
        ensures
            r.wf(),
            r@ == Seq::<(nat, VimModuleModel)>::empty(),
    {
        let mut sections: Vec<Vec<VimModule>> = Vec::new();
        let mut i: usize = 0;
        while i < SECTION_COUNT
            invariant
                i <= SECTION_COUNT,
                sections@.len() == i,
                forall|s: int| 0 <= s < i ==> (#[trigger] sections@[s])@.len() == 0,
            decreases SECTION_COUNT - i,
        {
            sections.push(Vec::new());
            i += 1;
        }
        let r = PluginModules { sections, found: Ghost(Seq::empty()) };
        proof {
            assert forall|s: int| 0 <= s < SECTION_COUNT implies module_models((#[trigger] r.sections@[s])@)
                == without_sections(in_section(r.found@, s as nat)) by {
                assert(module_models(r.sections@[s]@) =~= without_sections(
                    in_section(r.found@, s as nat),
                ));
            }
        }
        r
    }

    /// Adds a module that was found for a section.
    pub fn insert(&mut self, section: usize, module: VimModule)
        requires
            old(self).wf(),
            section < SECTION_COUNT,
        ensures
            final(self).wf(),
            final(self)@ == old(self)@.push((section as nat, module@)),
    {
        let ghost before = self.found@;
        let ghost old_sections = self.sections@;
        self.sections[section].push(module);
        proof {
            self.found@ = before.push((section as nat, module@));
            assert forall|s: int| 0 <= s < SECTION_COUNT implies module_models((#[trigger] self.sections@[s])@)
                == without_sections(in_section(self.found@, s as nat)) by {
                let next = (section as nat, module@);
                lemma_in_section_push(before, next, s as nat);
                if s == section {
                    assert(self.sections@[s]@ == old_sections[s]@.push(module));
                    assert(module_models(self.sections@[s]@) =~= module_models(
                        old_sections[s]@,
                    ).push(module@));
                    assert(without_sections(in_section(before, s as nat).push(next))
                        =~= without_sections(in_section(before, s as nat)).push(module@));
                } else {
                    assert(self.sections@[s] == old_sections[s]);
                }
            }
        }
    }

    /// Lists the modules section by section.
    pub fn into_plugin(self) -> (r: VimPlugin)
        requires
            self.wf(),
        ensures
            r@ == without_sections(by_section(self@)),
    {
        let mut sections: Vec<Vec<VimModule>> = self.sections;
        let ghost found = self.found@;
        let mut content: Vec<VimModule> = Vec::new();
        let mut i: usize = 0;
        proof {
            assert(module_models(content@) =~= without_sections(in_sections_before(found, 0)));
        }
        while i < SECTION_COUNT
            invariant
                i <= SECTION_COUNT,
                sections@.len() == SECTION_COUNT,
                forall|s: int|
                    i <= s < SECTION_COUNT ==> module_models((#[trigger] sections@[s])@) == without_sections(
                        in_section(found, s as nat),
                    ),
                module_models(content@) == without_sections(in_sections_before(found, i as nat)),
            decreases SECTION_COUNT - i,
        {
            let ghost old_content = content@;
            let ghost section = sections@[i as int]@;
            content.append(&mut sections[i]);
            proof {
                assert(content@ == old_content + section);
                assert(module_models(content@) =~= module_models(old_content) + module_models(
                    section,
                ));
                assert(without_sections(
                    in_sections_before(found, i as nat) + in_section(found, i as nat),
                ) =~= without_sections(in_sections_before(found, i as nat)) + without_sections(
                    in_section(found, i as nat),
                ));
            }
            i += 1;
        }
        VimPlugin { content }
    }
}

/// The names of the sections are all different, and each is found at its own place.
pub proof fn law_sections_are_found_by_name(name: Seq<char>, i: nat)
    ensures
        section_index(name) == Some(i) <==> i < section_names().len() && name == section_names()[i
            as int],
{
    reveal_strlit("plugin");
    reveal_strlit("instant");
    reveal_strlit("autoload");
    reveal_strlit("syntax");
    reveal_strlit("indent");
    reveal_strlit("ftdetect");
    reveal_strlit("ftplugin");
    reveal_strlit("spell");
    reveal_strlit("colors");
    if i < SECTION_COUNT && name == section_names()[i as int] {
        assert(name.len() == 5 || name.len() == 6 || name.len() == 7 || name.len() == 8);
        assert(name[0] == section_names()[i as int][0]);
        assert(name[2] == section_names()[i as int][2]);
    }
}

pub proof fn lemma_in_section_all(found: Seq<(nat, VimModuleModel)>, section: nat)
    ensures
        forall|i: int|
            0 <= i < in_section(found, section).len() ==> (#[trigger] in_section(
                found,
                section,
            )[i]).0 == section,
{
    assert forall|i: int| 0 <= i < in_section(found, section).len() implies (#[trigger] in_section(
        found,
        section,
    )[i]).0 == section by {
        found.lemma_filter_pred(of_section(section), i);
    }
}

proof fn lemma_sections_before_range(found: Seq<(nat, VimModuleModel)>, n: nat)
    ensures
        forall|i: int|
            0 <= i < in_sections_before(found, n).len() ==> (#[trigger] in_sections_before(
                found,
                n,
            )[i]).0 < n,
    decreases n,
{
    if n > 0 {
        let last = (n - 1) as nat;
        let before = in_sections_before(found, last);
        lemma_sections_before_range(found, last);
        lemma_in_section_all(found, last);
        assert forall|i: int| 0 <= i < in_sections_before(found, n).len() implies (
        #[trigger] in_sections_before(found, n)[i]).0 < n by {
            if i < before.len() {
                assert(in_sections_before(found, n)[i] == before[i]);
            } else {
                assert(in_sections_before(found, n)[i] == in_section(found, last)[i
                    - before.len()]);
            }
        }
    }
}

proof fn lemma_sections_before_sorted(found: Seq<(nat, VimModuleModel)>, n: nat)
    ensures
        forall|i: int, j: int|
            0 <= i <= j < in_sections_before(found, n).len() ==> (#[trigger] in_sections_before(
                found,
                n,
            )[i]).0 <= (#[trigger] in_sections_before(found, n)[j]).0,
    decreases n,
{
    if n > 0 {
        let last = (n - 1) as nat;
        let before = in_sections_before(found, last);
        lemma_sections_before_sorted(found, last);
        lemma_sections_before_range(found, last);
        lemma_in_section_all(found, last);
        assert forall|i: int, j: int| 0 <= i <= j < in_sections_before(found, n).len() implies (
        #[trigger] in_sections_before(found, n)[i]).0 <= (#[trigger] in_sections_before(
            found,
            n,
        )[j]).0 by {
            if i < before.len() {
                assert(in_sections_before(found, n)[i] == before[i]);
            } else {
                assert(in_sections_before(found, n)[i] == in_section(found, last)[i
                    - before.len()]);
            }
            if j < before.len() {
                assert(in_sections_before(found, n)[j] == before[j]);
            } else {
                assert(in_sections_before(found, n)[j] == in_section(found, last)[j
                    - before.len()]);
            }
        }
    }
}

/// The modules of a plugin are listed in the order of their sections, in whatever order they were
/// found.
pub proof fn law_listed_in_order_of_sections(found: Seq<(nat, VimModuleModel)>)
    ensures
        forall|i: int, j: int|
            0 <= i <= j < by_section(found).len() ==> (#[trigger] by_section(found)[i]).0 <= (
            #[trigger] by_section(found)[j]).0,
{
    lemma_sections_before_sorted(found, SECTION_COUNT as nat);
}

proof fn lemma_in_section_concat(
    a: Seq<(nat, VimModuleModel)>,
    b: Seq<(nat, VimModuleModel)>,
    section: nat,
)
    ensures
        in_section(a + b, section) == in_section(a, section) + in_section(b, section),
{
    Seq::filter_distributes_over_add(a, b, of_section(section));
}

proof fn lemma_only_section(found: Seq<(nat, VimModuleModel)>, section: nat)
    requires
        forall|i: int| 0 <= i < found.len() ==> (#[trigger] found[i]).0 == section,
    ensures
        in_section(found, section) == found,
    decreases found.len(),
{
    if found.len() > 0 {
        let init = found.drop_last();
        assert(found =~= init.push(found.last()));
        lemma_only_section(init, section);
        lemma_in_section_push(init, found.last(), section);
    } else {
        assert(in_section(found, section) =~= found);
    }
}

proof fn lemma_no_section(found: Seq<(nat, VimModuleModel)>, section: nat)
    requires
        forall|i: int| 0 <= i < found.len() ==> (#[trigger] found[i]).0 != section,
    ensures
        in_section(found, section) == Seq::<(nat, VimModuleModel)>::empty(),
    decreases found.len(),
{
    if found.len() > 0 {
        let init = found.drop_last();
        assert(found =~= init.push(found.last()));
        lemma_no_section(init, section);
        lemma_in_section_push(init, found.last(), section);
    } else {
        assert(in_section(found, section) =~= found);
    }
}

proof fn lemma_order_in_section(found: Seq<(nat, VimModuleModel)>, n: nat, section: nat)
    ensures
        in_section(in_sections_before(found, n), section) == if section < n {
            in_section(found, section)
        } else {
            Seq::<(nat, VimModuleModel)>::empty()
        },
    decreases n,
{
    let none = Seq::<(nat, VimModuleModel)>::empty();
    if n > 0 {
        let last = (n - 1) as nat;
        let before = in_sections_before(found, last);
        lemma_order_in_section(found, last, section);
        lemma_in_section_all(found, last);
        lemma_in_section_concat(before, in_section(found, last), section);
        if section == last {
            lemma_only_section(in_section(found, last), section);
            assert(none + in_section(found, last) =~= in_section(found, last));
        } else {
            lemma_no_section(in_section(found, last), section);
            assert(in_section(before, section) + none =~= in_section(before, section));
        }
    } else {
        lemma_no_section(none, section);
    }
}

/// Where all modules were found for one section, they are listed as they were found.
pub proof fn law_one_section_is_listed_as_found(found: Seq<(nat, VimModuleModel)>, section: nat)
    requires
        section < SECTION_COUNT,
        forall|i: int| 0 <= i < found.len() ==> (#[trigger] found[i]).0 == section,
    ensures
        by_section(found) == found,
{
    lemma_one_section_before(found, section, SECTION_COUNT as nat);
}

proof fn lemma_one_section_before(found: Seq<(nat, VimModuleModel)>, section: nat, n: nat)
    requires
        forall|i: int| 0 <= i < found.len() ==> (#[trigger] found[i]).0 == section,
    ensures
        in_sections_before(found, n) == if section < n {
            found
        } else {
            Seq::<(nat, VimModuleModel)>::empty()
        },
    decreases n,
{
    if n > 0 {
        let last = (n - 1) as nat;
        lemma_one_section_before(found, section, last);
        if section == last {
            lemma_only_section(found, section);
        } else {
            lemma_no_section(found, last);
        }
        assert(in_sections_before(found, n) =~= if section < n {
            found
        } else {
            Seq::<(nat, VimModuleModel)>::empty()
        });
    }
}

/// Within a section, the modules of a plugin are listed in the order in which they were found, and
/// none is lost or listed twice.
pub proof fn law_order_within_a_section(found: Seq<(nat, VimModuleModel)>, section: nat)
    requires
        section < SECTION_COUNT,
    ensures
        in_section(by_section(found), section) == in_section(found, section),
{
    lemma_order_in_section(found, SECTION_COUNT as nat, section);
}

/// Selects the modules that were found for one of the first `n` sections.
spec fn of_sections_before(n: nat) -> spec_fn((nat, VimModuleModel)) -> bool {
    |f: (nat, VimModuleModel)| f.0 < n
}

proof fn lemma_split_section(found: Seq<(nat, VimModuleModel)>, n: nat)
    ensures
        found.filter(of_sections_before(n + 1)).to_multiset() == found.filter(
            of_sections_before(n),
        ).to_multiset().add(in_section(found, n).to_multiset()),
    decreases found.len(),
{
    broadcast use vstd::seq_lib::group_to_multiset_ensures, vstd::multiset::group_multiset_axioms;

    let keep = of_sections_before(n);
    let keep_more = of_sections_before(n + 1);
    let split = found.filter(keep).to_multiset().add(in_section(found, n).to_multiset());
    if found.len() > 0 {
        let init = found.drop_last();
        let last = found.last();
        assert(found =~= init.push(last));
        lemma_split_section(init, n);
        lemma_in_section_push(init, last, n);
        init.lemma_filter_push(last, keep);
        init.lemma_filter_push(last, keep_more);
    } else {
        assert(found.filter(keep) =~= found);
        assert(found.filter(keep_more) =~= found);
        assert(in_section(found, n) =~= found);
    }
    assert(found.filter(keep_more).to_multiset() =~= split);
}

proof fn lemma_sections_before_multiset(found: Seq<(nat, VimModuleModel)>, n: nat)
    ensures
        in_sections_before(found, n).to_multiset() == found.filter(
            of_sections_before(n),
        ).to_multiset(),
    decreases n,
{
    if n > 0 {
        let last = (n - 1) as nat;
        lemma_sections_before_multiset(found, last);
        lemma_split_section(found, last);
        vstd::seq_lib::lemma_multiset_commutative(
            in_sections_before(found, last),
            in_section(found, last),
        );
    } else {
        found.lemma_all_neg_filter_empty(of_sections_before(0));
        assert(in_sections_before(found, 0) =~= found.filter(of_sections_before(0)));
    }
}

proof fn lemma_all_before(found: Seq<(nat, VimModuleModel)>, n: nat)
    requires
        forall|i: int| 0 <= i < found.len() ==> (#[trigger] found[i]).0 < n,
    ensures
        found.filter(of_sections_before(n)) == found,
    decreases found.len(),
{
    if found.len() > 0 {
        let init = found.drop_last();
        assert(found =~= init.push(found.last()));
        lemma_all_before(init, n);
        init.lemma_filter_push(found.last(), of_sections_before(n));
    } else {
        assert(found.filter(of_sections_before(n)) =~= found);
    }
}

/// A plugin lists each module that was found for its sections exactly as often as it was found,
/// and nothing else.
pub proof fn law_what_is_found_is_listed(found: Seq<(nat, VimModuleModel)>)
    requires
        forall|i: int| 0 <= i < found.len() ==> (#[trigger] found[i]).0 < SECTION_COUNT,
    ensures
        by_section(found).to_multiset() == found.to_multiset(),
{
    lemma_sections_before_multiset(found, SECTION_COUNT as nat);
    lemma_all_before(found, SECTION_COUNT as nat);
}

/// An entry is selected just if it is a regular file, its name ends with `.vim`, and it lies in a
/// section. The sections have the numbers 0 to 8, in this order.
pub proof fn law_entry_is_selected(
    is_file: bool,
    file_name: Seq<char>,
    section_name: Option<Seq<char>>,
    i: nat,
)
    ensures
        selected_section(is_file, file_name, section_name) == Some(i) <==> {
            &&& is_file
            &&& file_name.len() >= 4
            &&& file_name.skip(file_name.len() - 4) == seq!['.', 'v', 'i', 'm']
            &&& i < 9
            &&& section_name == Some(
                seq![
                    "plugin"@,
                    "instant"@,
                    "autoload"@,
                    "syntax"@,
                    "indent"@,
                    "ftdetect"@,
                    "ftplugin"@,
                    "spell"@,
                    "colors"@,
                ][i as int],
            )
        },
{
    reveal_strlit(".vim");
    assert(".vim"@ =~= seq!['.', 'v', 'i', 'm']);
    if let Some(name) = section_name {
        law_sections_are_found_by_name(name, i);
    }
}

/// A file of Vim script is a regular file whose name ends with `.vim`.
pub proof fn law_script(is_file: bool, file_name: Seq<char>)
    ensures
        is_script(is_file, file_name) <==> is_file && file_name.len() >= 4 && file_name.skip(
            file_name.len() - 4,
        ) == seq!['.', 'v', 'i', 'm'],
{
    reveal_strlit(".vim");
    assert(".vim"@ =~= seq!['.', 'v', 'i', 'm']);
}

/// Tells whether a module was found for this section.
pub open spec fn found_for(section: nat) -> spec_fn((nat, VimModuleModel)) -> bool {
    |f: (nat, VimModuleModel)| f.0 == section
}

/// What was found is listed in the order of sections, and within a section as it was found. Nothing
/// is added, lost or listed twice.
pub proof fn law_listing(found: Seq<(nat, VimModuleModel)>)
    requires
        forall|i: int| 0 <= i < found.len() ==> (#[trigger] found[i]).0 < 9,
    ensures
        by_section(found).len() == found.len(),
        by_section(found).to_multiset() == found.to_multiset(),
        forall|i: int, j: int|
            0 <= i <= j < found.len() ==> (#[trigger] by_section(found)[i]).0 <= (
            #[trigger] by_section(found)[j]).0,
        forall|section: nat|
            by_section(found).filter(#[trigger] found_for(section)) == found.filter(
                found_for(section),
            ),
{
    broadcast use vstd::seq_lib::group_to_multiset_ensures;

    law_what_is_found_is_listed(found);
    law_listed_in_order_of_sections(found);
    assert(by_section(found).len() == found.len()) by {
        assert(by_section(found).to_multiset().len() == found.to_multiset().len());
    }
    assert forall|section: nat|
        by_section(found).filter(#[trigger] found_for(section)) == found.filter(
            found_for(section),
        ) by {
        assert(found_for(section) =~= of_section(section));
        lemma_order_in_section(found, SECTION_COUNT as nat, section);
        if section >= SECTION_COUNT {
            lemma_no_section(found, section);
        }
    }
}

/// Without their sections, the modules are the same in the same order.
pub proof fn law_modules_without_sections(found: Seq<(nat, VimModuleModel)>)
    ensures
        without_sections(found).len() == found.len(),
        forall|i: int|
            0 <= i < found.len() ==> without_sections(found)[i] == (#[trigger] found[i]).1,
{
}

/// The sections have these names and the numbers 0 to 8, in this order, and no other name is that
/// of a section.
pub proof fn law_numbers_of_sections(name: Seq<char>, i: nat)
    ensures
        section_index(name) == Some(i) <==> i < 9 && name == seq![
            "plugin"@,
            "instant"@,
            "autoload"@,
            "syntax"@,
            "indent"@,
            "ftdetect"@,
            "ftplugin"@,
            "spell"@,
            "colors"@,
        ][i as int],
{
    law_sections_are_found_by_name(name, i);
}

} // verus!

//! Where projects, bots and skills are kept, as the texts of paths whose
//! parts `/` keeps apart.

use vstd::prelude::*;
use vstd::string::*;

verus! {

/// A skill binary by name and place.
#[derive(Debug, Clone, PartialEq, Eq)]
pub struct SkillEntry {
    name: String,
    path: String,
}

/// What a `SkillEntry` stands for in contracts.
pub struct SkillEntryView {
    pub name: Seq<char>,
    pub path: Seq<char>,
}

impl View for SkillEntry {
    type V = SkillEntryView;

    closed spec fn view(&self) -> SkillEntryView {
        SkillEntryView { name: self.name@, path: self.path@ }
    }
}

/// The path `name` as seen from the directory `dir`, as paths are joined
/// where `/` parts them: a name that begins with `/` stands for itself, and
/// a `/` is put between the two unless `dir` is empty or ends in one.
pub open spec fn joined(dir: Seq<char>, name: Seq<char>) -> Seq<char> {
    if name.len() > 0 && name[0] == '/' {
        name
    } else if dir.len() == 0 || dir.last() == '/' {
        dir + name
    } else {
        dir + seq!['/'] + name
    }
}

/// The place called `name` beneath `dir`: the two with one `/` between them,
/// whatever they hold. Unlike `joined`, the result always begins with `dir`.
pub open spec fn beneath(dir: Seq<char>, name: Seq<char>) -> Seq<char> {
    dir + seq!['/'] + name
}

/// The directory that holds every project.
pub open spec fn base_projects_text() -> Seq<char> {
    "./projects"@
}

/// The directory that holds the bots.
pub open spec fn bots_dir_text() -> Seq<char> {
    joined(base_projects_text(), "bots"@)
}

/// The file that lists the bots.
pub open spec fn bots_list_text() -> Seq<char> {
    joined(bots_dir_text(), "bots_list.yaml"@)
}

/// The directory that holds the skills.
pub open spec fn skills_dir_text() -> Seq<char> {
    joined(bots_dir_text(), "Prar/skills"@)
}

/// The directory that holds the binaries of the skills.
pub open spec fn skill_binaries_text() -> Seq<char> {
    joined(skills_dir_text(), "target"@)
}

/// The binary of the skill `id`. It stands beneath the directory of the
/// binaries whatever `id` holds: an `id` that begins with `/` names no other
/// place.
pub open spec fn skill_binary_text(id: Seq<char>) -> Seq<char> {
    beneath(skill_binaries_text(), id)
}

/// The path `name` as seen from the directory `dir`.
pub fn join(dir: &str, name: &str) -> (path: String)
    ensures
        path@ == joined(dir@, name@),
{
    proof {
        reveal_strlit("/");
        assert("/"@ =~= seq!['/']);
    }
    let name_len = name.unicode_len();
    if name_len > 0 && name.get_char(0) == '/' {
        return name.to_owned();
    }
    let dir_len = dir.unicode_len();
    if dir_len == 0 || dir.get_char(dir_len - 1) == '/' {
        return dir.to_owned().concat(name);
    }
    dir.to_owned().concat("/").concat(name)
}

/// The place called `name` beneath `dir`.
pub fn place_beneath(dir: &str, name: &str) -> (path: String)
    ensures
        path@ == beneath(dir@, name@),
{
    proof {
        reveal_strlit("/");
        assert("/"@ =~= seq!['/']);
    }
    dir.to_owned().concat("/").concat(name)
}

/// The directory that holds every project.
pub fn base_projects_path() -> (path: String)
    ensures
        path@ == base_projects_text(),
{
    "./projects".to_owned()
}

/// The directory that holds the bots.
pub fn bots_dir() -> (path: String)
    ensures
        path@ == bots_dir_text(),
{
    join(base_projects_path().as_str(), "bots")
}

/// The file that lists the bots.
pub fn bots_list_path() -> (path: String)
    ensures
        path@ == bots_list_text(),
{
    join(bots_dir().as_str(), "bots_list.yaml")
}

/// The directory that holds the skills.
pub fn skills_dir() -> (path: String)
    ensures
        path@ == skills_dir_text(),
{
    join(bots_dir().as_str(), "Prar/skills")
}

/// The place of the binary that runs the skill `id`.
pub fn skill_binary_path(id: &str) -> (path: String)
    ensures
        path@ == skill_binary_text(id@),
{
    let target = join(skills_dir().as_str(), "target");
    place_beneath(target.as_str(), id)
}

impl SkillEntry {
    /// The entry of a skill by this name whose binary is at `path`.
    pub fn new(name: String, path: String) -> (entry: SkillEntry)
        ensures
            entry@ == (SkillEntryView { name: name@, path: path@ }),
    {
        SkillEntry { name, path }
    }

    /// The entry of the skill `id`, at the place of its binary.
    pub fn of_skill(id: &str) -> (entry: SkillEntry)
        ensures
            entry@ == (SkillEntryView { name: id@, path: skill_binary_text(id@) }),
    {
        SkillEntry { name: id.to_owned(), path: skill_binary_path(id) }
    }

    /// The skill's name.
    pub fn name(&self) -> (name: &String)
        ensures
            name@ == self@.name,
    {
        &self.name
    }

    /// The place of the skill's binary.
    pub fn path(&self) -> (path: &String)
        ensures
            path@ == self@.path,
    {
        &self.path
    }
}

} // verus!

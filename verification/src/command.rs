//! The command surface: what an invocation asks for, and the exact text
//! the shell prints in answer.  Argument parsing itself stays outside;
//! these types carry only the decoded request.

use vstd::prelude::*;
use crate::document::{chars_of, string_of};
use crate::projects::{names_of, Project, ProjectData};

verus! {

/// What creating a project takes: its name.
#[derive(Clone, Debug)]
pub struct NewArgs {
    pub name: String,
}

/// One project-management action.
#[derive(Clone, Debug)]
pub enum Subcommand {
    New(NewArgs),
}

/// A whole invocation: manage projects, or list them.
#[derive(Clone, Debug)]
pub enum Command {
    Project(Subcommand),
    Projects,
}

/// The message the shell prints for a project subcommand.
pub fn run(subcommand: Subcommand) -> (r: String)
    ensures
        match subcommand {
            Subcommand::New(args) => r@ == "Not implemented: create project \""@ + args.name@
                + "\""@,
        },
{
    match subcommand {
        Subcommand::New(args) => create_project(args),
    }
}

fn create_project(args: NewArgs) -> (r: String)
    ensures
        r@ == "Not implemented: create project \""@ + args.name@ + "\""@,
{
    let mut v = chars_of("Not implemented: create project \"");
    let mut t = chars_of(args.name.as_str());
    v.append(&mut t);
    let mut c = chars_of("\"");
    v.append(&mut c);
    string_of(&v)
}

/// The lines listing the records `ns[i..]`, one dash-led line each.
pub open spec fn listing_lines(ns: Seq<Seq<char>>, i: int) -> Seq<char>
    decreases ns.len() - i,
{
    if i < 0 || i >= ns.len() {
        Seq::empty()
    } else {
        "- "@ + ns[i] + seq!['\n'] + listing_lines(ns, i + 1)
    }
}

/// The text the shell prints for the listing command: a headed list of
/// the store's projects in order, or the distinct empty-store message.
pub open spec fn listing(ns: Seq<Seq<char>>) -> Seq<char> {
    if ns.len() == 0 {
        "No projects\n"@
    } else {
        "Projects:\n"@ + listing_lines(ns, 0)
    }
}

fn listing_lines_chars(projects: &Vec<Project>, i: usize) -> (r: Vec<char>)
    requires
        i < projects@.len(),
    ensures
        r@ == listing_lines(names_of(projects@), i as int),
    decreases projects@.len() - i,
{
    let ghost ns = names_of(projects@);
    let n = projects.len();
    proof {
        assert(ns[i as int] == projects@[i as int].name@);
    }
    let mut v = chars_of("- ");
    let mut nm = chars_of(projects[i].name.as_str());
    v.append(&mut nm);
    v.push('\n');
    if i + 1 < n {
        let mut tail = listing_lines_chars(projects, i + 1);
        v.append(&mut tail);
        proof {
            assert(v@ =~= "- "@ + ns[i as int] + seq!['\n'] + listing_lines(ns, i + 1));
        }
    } else {
        proof {
            assert(listing_lines(ns, i + 1) =~= Seq::<char>::empty());
            assert(v@ =~= "- "@ + ns[i as int] + seq!['\n'] + listing_lines(ns, i + 1));
        }
    }
    v
}

/// The listing text for a store.
pub fn render_project_list(data: &ProjectData) -> (r: String)
    ensures
        r@ == listing(data@),
{
    if data.projects.len() == 0 {
        let v = chars_of("No projects\n");
        string_of(&v)
    } else {
        let mut v = chars_of("Projects:\n");
        let mut lines = listing_lines_chars(&data.projects, 0);
        v.append(&mut lines);
        string_of(&v)
    }
}

} // verus!

use vstd::prelude::*;

use crate::text::{push_char, strings_view};

verus! {

/// The entries of a directory shown in the sidebar.
#[derive(Debug, Clone, PartialEq, Eq)]
pub struct Folder {
    pub files: Vec<String>,
    pub folders: Vec<String>,
}

pub fn empty_folder() -> (r: Folder)
    ensures
        r.files@.len() == 0,
        r.folders@.len() == 0,
{
    Folder { files: Vec::new(), folders: Vec::new() }
}

/// What the sidebar needs to know of one directory entry.
pub struct EntryInfo {
    pub name: String,
    pub is_dir: bool,
    pub is_file: bool,
    /// The focused file lies at or below this entry.
    pub holds_focus: bool,
}

/// Names never listed: version control and build output.
pub open spec fn blacklisted(name: Seq<char>) -> bool {
    name == seq!['t', 'a', 'r', 'g', 'e', 't'] || name == seq!['.', 'g', 'i', 't']
}

pub open spec fn listed(e: EntryInfo) -> bool {
    !e.holds_focus && !blacklisted(e.name@)
}

/// The sidebar's files and folders for these entries, in order.
pub open spec fn listing(entries: Seq<EntryInfo>) -> (Seq<Seq<char>>, Seq<Seq<char>>)
    decreases entries.len(),
{
    if entries.len() == 0 {
        (seq![], seq![])
    } else {
        let (files, folders) = listing(entries.drop_last());
        let e = entries.last();
        if !listed(e) {
            (files, folders)
        } else if e.is_dir {
            (files, folders.push(e.name@))
        } else if e.is_file {
            (files.push(e.name@), folders)
        } else {
            (files, folders)
        }
    }
}

fn is_blacklisted(name: &String) -> (r: bool)
    ensures
        r == blacklisted(name@),
{
    let s = name.as_str();
    let n = s.unicode_len();
    if n == 6 {
        let r = s.get_char(0) == 't' && s.get_char(1) == 'a' && s.get_char(2) == 'r'
            && s.get_char(3) == 'g' && s.get_char(4) == 'e' && s.get_char(5) == 't';
        assert(r ==> s@ =~= seq!['t', 'a', 'r', 'g', 'e', 't']);
        r
    } else if n == 4 {
        let r = s.get_char(0) == '.' && s.get_char(1) == 'g' && s.get_char(2) == 'i'
            && s.get_char(3) == 't';
        assert(r ==> s@ =~= seq!['.', 'g', 'i', 't']);
        r
    } else {
        false
    }
}

/// Sorts directory entries into the sidebar's files and folders, leaving
/// out the blacklisted ones and those that hold the focused file.
pub fn read_file_tree(entries: Vec<EntryInfo>) -> (r: Folder)
    ensures
        (strings_view(r.files@), strings_view(r.folders@)) == listing(entries@),
{
    let mut folder = empty_folder();
    let mut k: usize = 0;
    proof {
        assert(strings_view(folder.files@) =~= seq![]);
        assert(strings_view(folder.folders@) =~= seq![]);
        assert(entries@.subrange(0, 0) =~= seq![]);
    }
    while k < entries.len()
        invariant
            k <= entries.len(),
            (strings_view(folder.files@), strings_view(folder.folders@)) == listing(
                entries@.subrange(0, k as int),
            ),
        decreases entries.len() - k,
    {
        let e = &entries[k];
        proof {
            assert(entries@.subrange(0, k + 1).drop_last() =~= entries@.subrange(0, k as int));
        }
        if !e.holds_focus && !is_blacklisted(&e.name) {
            if e.is_dir {
                let ghost before = folder.folders@;
                folder.folders.push(e.name.clone());
                assert(strings_view(folder.folders@) =~= strings_view(before).push(e.name@));
            } else if e.is_file {
                let ghost before = folder.files@;
                folder.files.push(e.name.clone());
                assert(strings_view(folder.files@) =~= strings_view(before).push(e.name@));
            }
        }
        k = k + 1;
    }
    assert(entries@.subrange(0, entries.len() as int) =~= entries@);
    folder
}

/// `n` spaces.
pub open spec fn indent(n: nat) -> Seq<char> {
    Seq::new(n, |i: int| ' ')
}

/// The breadcrumbs of a path: each component that is readable text,
/// indented by two spaces per level of depth.
pub open spec fn path_list(components: Seq<Option<String>>) -> Seq<Seq<char>>
    decreases components.len(),
{
    if components.len() == 0 {
        seq![]
    } else {
        let rest = path_list(components.drop_last());
        match components.last() {
            Some(name) => rest.push(indent((2 * (components.len() - 1)) as nat) + name@),
            None => rest,
        }
    }
}

/// Breadcrumbs for the components of the focused path below the working
/// directory; `None` stands for a component that is not valid text.
pub fn get_path_list(components: &Vec<Option<String>>) -> (r: Vec<String>)
    requires
        2 * components@.len() <= usize::MAX,
    ensures
        strings_view(r@) == path_list(components@),
{
    let mut list: Vec<String> = Vec::new();
    let mut k: usize = 0;
    proof {
        assert(strings_view(list@) =~= seq![]);
        assert(components@.subrange(0, 0) =~= seq![]);
    }
    while k < components.len()
        invariant
            k <= components.len(),
            2 * components@.len() <= usize::MAX,
            strings_view(list@) == path_list(components@.subrange(0, k as int)),
        decreases components.len() - k,
    {
        proof {
            assert(components@.subrange(0, k + 1).drop_last() =~= components@.subrange(
                0,
                k as int,
            ));
        }
        match &components[k] {
            Some(name) => {
                let mut padded = String::new();
                let width: usize = 2 * k;
                let mut j: usize = 0;
                while j < width
                    invariant
                        j <= width,
                        padded@ =~= indent(j as nat),
                    decreases width - j,
                {
                    push_char(&mut padded, ' ');
                    j = j + 1;
                }
                let padded = padded.concat(name.as_str());
                let ghost before = list@;
                list.push(padded);
                assert(strings_view(list@) =~= strings_view(before).push(padded@));
            },
            None => {},
        }
        k = k + 1;
    }
    assert(components@.subrange(0, components.len() as int) =~= components@);
    list
}

} // verus!

//! The class path: an ordered list of directories and archives, searched in
//! the order they were added. Reading a file or an archive member is left to
//! the caller, who hands in a reader; the resolver decides where to look and
//! which answer wins.
use vstd::prelude::*;

verus! {

/// One place to look for classes.
#[derive(Debug, Clone, PartialEq, Eq)]
pub enum ClassPathEntry {
    /// A directory; a class is a file below it.
    Dir(String),
    /// An archive, by its path; a class is a member of it.
    Jar(String),
}

/// Where a class was found, and its bytes.
#[derive(Debug)]
pub struct ClassPathResult(pub String, pub Vec<u8>);

/// No entry of the class path holds the class; `name` is the member name
/// that was searched for.
#[derive(Debug, Clone, PartialEq, Eq)]
pub struct NotFound {
    pub name: String,
}

pub struct ClassPathManager {
    class_path: Vec<ClassPathEntry>,
}

/// Each `.` of a class name becomes a path separator.
pub open spec fn dots_to_slashes(s: Seq<char>) -> Seq<char> {
    s.map_values(|c: char| if c == '.' { '/' } else { c })
}

/// Relies on `str::replace`: every match of the pattern is replaced, and the
/// other characters are kept in order.
#[verifier::external_body]
fn replace_dots(name: &str) -> (r: String)
    ensures
        r@ == dots_to_slashes(name@),
{
    name.replace(".", "/")
}

/// The member name under which a class is stored: its name with `/` for `.`,
/// and the `.class` suffix.
pub open spec fn member_name(name: Seq<char>) -> Seq<char> {
    dots_to_slashes(name) + ".class"@
}

/// What is read for a class in `e`: a file path for a directory, a member name
/// for an archive.
pub open spec fn location(e: ClassPathEntry, name: Seq<char>) -> Seq<char> {
    match e {
        ClassPathEntry::Dir(p) => p@ + "/"@ + member_name(name),
        ClassPathEntry::Jar(_) => member_name(name),
    }
}

/// What a result found in `e` reports as its origin: the file path for a
/// directory, the archive's path for an archive.
pub open spec fn origin(e: ClassPathEntry, name: Seq<char>) -> Seq<char> {
    match e {
        ClassPathEntry::Dir(_) => location(e, name),
        ClassPathEntry::Jar(p) => p@,
    }
}

/// Asked for the class at its location in `e`, `read` answered `out`.
pub open spec fn reported<F: Fn(&ClassPathEntry, &String) -> Option<Vec<u8>>>(
    read: F,
    e: ClassPathEntry,
    name: Seq<char>,
    out: Option<Vec<u8>>,
) -> bool {
    exists|loc: String| loc@ == location(e, name) && #[trigger] read.ensures((&e, &loc), out)
}

/// The member name of a class: `java.lang.Object` becomes
/// `java/lang/Object.class`.
pub fn class_file_name(name: &str) -> (r: String)
    ensures
        r@ == member_name(name@),
{
    let s = replace_dots(name);
    let r = s.concat(".class");
    proof {
        reveal_strlit(".class");
    }
    r
}

fn location_of(entry: &ClassPathEntry, member: &String) -> (r: String)
    ensures
        forall|name: Seq<char>| member@ == member_name(name) ==> r@ == location(*entry, name),
{
    match entry {
        ClassPathEntry::Dir(p) => {
            let d = p.clone().concat("/");
            proof {
                reveal_strlit("/");
            }
            d.concat(member.as_str())
        },
        ClassPathEntry::Jar(_) => member.clone(),
    }
}

impl View for ClassPathManager {
    type V = Seq<ClassPathEntry>;

    closed spec fn view(&self) -> Seq<ClassPathEntry> {
        self.class_path@
    }
}

impl ClassPathManager {
    pub fn new() -> (r: Self)
        ensures
            r@ == Seq::<ClassPathEntry>::empty(),
    {
        ClassPathManager { class_path: Vec::new() }
    }

    /// Appends an entry: it is searched after every entry added before it.
    pub fn add_class_path(&mut self, entry: ClassPathEntry)
        ensures
            final(self)@ == old(self)@.push(entry),
    {
        self.class_path.push(entry);
    }

    pub fn size(&self) -> (r: usize)
        ensures
            r == self@.len(),
    {
        self.class_path.len()
    }

    /// Searches the entries in the order they were added and returns the
    /// first answer that `read` gives. `read` is asked once per entry, at that
    /// entry's location, until one answers.
    pub fn search_class<F: Fn(&ClassPathEntry, &String) -> Option<Vec<u8>>>(
        &self,
        name: &str,
        read: &F,
    ) -> (r: Result<ClassPathResult, NotFound>)
        requires
            forall|e: &ClassPathEntry, l: &String| read.requires((e, l)),
        ensures
            r matches Ok(found) ==> exists|i: int|
                0 <= i < self@.len() && found.0@ == origin(self@[i], name@) && reported(
                    *read,
                    self@[i],
                    name@,
                    Some(found.1),
                ) && forall|j: int| 0 <= j < i ==> reported(*read, self@[j], name@, None),
            r matches Err(missing) ==> missing.name@ == member_name(name@) && forall|j: int|
                0 <= j < self@.len() ==> reported(*read, self@[j], name@, None),
    {
        let member = class_file_name(name);
        let mut i: usize = 0;
        while i < self.class_path.len()
            invariant
                member@ == member_name(name@),
                forall|e: &ClassPathEntry, l: &String| read.requires((e, l)),
                0 <= i <= self@.len(),
                forall|j: int| 0 <= j < i ==> reported(*read, self@[j], name@, None),
            decreases self@.len() - i,
        {
            let entry = &self.class_path[i];
            let loc = location_of(entry, &member);
            let out = read(entry, &loc);
            assert(loc@ == location(self@[i as int], name@));
            assert(reported(*read, self@[i as int], name@, out));
            match out {
                Some(bytes) => {
                    let source = match entry {
                        ClassPathEntry::Dir(_) => loc,
                        ClassPathEntry::Jar(p) => p.clone(),
                    };
                    assert(source@ == origin(self@[i as int], name@));
                    let found = ClassPathResult(source, bytes);
                    assert(reported(*read, self@[i as int], name@, Some(found.1)));
                    return Ok(found);
                },
                None => {},
            }
            i += 1;
        }
        Err(NotFound { name: member })
    }
}

/// The entry added first wins: where entry `i` holds the class (`read` answers
/// it with bytes), no later entry `k` can be the one `search_class` returns,
/// since that would need entry `i` to have answered `None`.
pub proof fn lemma_first_entry_wins<F: Fn(&ClassPathEntry, &String) -> Option<Vec<u8>>>(
    entries: Seq<ClassPathEntry>,
    name: Seq<char>,
    read: F,
    i: int,
    k: int,
)
    requires
        0 <= i < k <= entries.len(),
        forall|o: Option<Vec<u8>>| reported(read, entries[i], name, o) ==> o is Some,
    ensures
        !(forall|j: int| 0 <= j < k ==> reported(read, entries[j], name, None)),
{
    if forall|j: int| 0 <= j < k ==> reported(read, entries[j], name, None) {
        assert(reported(read, entries[i], name, None));
    }
}

} // verus!

//! Projects and the tags that are kept in them.

use vstd::prelude::*;
use vstd::std_specs::cmp::PartialEqSpecImpl;
use vstd::string::StringExecFns;
use crate::keyed::{Keyed, KeyedList};
use crate::stamp::{is_ulid, new_ulid, now_rfc3339};

verus! {

/// A named tag with an identifier of its own.
#[derive(Debug, Eq, Hash)]
pub struct Tag {
    uid: String,
    name: String,
}

/// What a [`Tag`] holds.
pub struct TagView {
    pub uid: Seq<char>,
    pub name: Seq<char>,
}

impl View for Tag {
    type V = TagView;

    closed spec fn view(&self) -> TagView {
        TagView { uid: self.uid@, name: self.name@ }
    }
}

impl Clone for Tag {
    fn clone(&self) -> (copy: Self)
        ensures
            copy == *self,
    {
        Tag { uid: self.uid.clone(), name: self.name.clone() }
    }
}

impl PartialEq for Tag {
    fn eq(&self, other: &Self) -> (equal: bool) {
        self.uid == other.uid && self.name == other.name
    }
}

impl PartialEqSpecImpl for Tag {
    open spec fn obeys_eq_spec() -> bool {
        true
    }

    open spec fn eq_spec(&self, other: &Self) -> bool {
        self@ == other@
    }
}

impl Keyed for Tag {
    closed spec fn key(&self) -> Seq<char> {
        self.uid@
    }

    fn key_text(&self) -> (text: &String) {
        &self.uid
    }
}

impl Tag {
    /// A tag is found by its identifier.
    pub proof fn lemma_key(&self)
        ensures
            self.key() == self@.uid,
    {
    }

    /// The tag `name` under the identifier `uid`.
    pub fn with_uid(uid: String, name: &str) -> (tag: Self)
        ensures
            tag@ == (TagView { uid: uid@, name: name@ }),
    {
        Tag { uid, name: String::from_str(name) }
    }

    /// The tag `name` under a fresh identifier.
    pub fn new(name: &str) -> (tag: Self)
        ensures
            tag@.name == name@,
            is_ulid(tag@.uid),
    {
        Tag::with_uid(new_ulid(), name)
    }

    /// The identifier of the tag.
    pub fn uid(&self) -> (uid: &String)
        ensures
            uid@ == self@.uid,
    {
        &self.uid
    }

    /// The name of the tag.
    pub fn name(&self) -> (name: &String)
        ensures
            name@ == self@.name,
    {
        &self.name
    }

    /// Changes the name of the tag and leaves the identifier.
    pub fn set_name(&mut self, name: String)
        ensures
            final(self)@ == (TagView { name: name@, ..old(self)@ }),
    {
        self.name = name;
    }
}

/// A project: its description, the times of its creation and of its last
/// change as text, and its tags, each found by its identifier.
#[derive(Debug)]
pub struct Project {
    uid: String,
    name: String,
    description: String,
    created_at: String,
    updated_at: String,
    tags: KeyedList<Tag>,
}

/// What a [`Project`] holds.
pub struct ProjectView {
    pub uid: Seq<char>,
    pub name: Seq<char>,
    pub description: Seq<char>,
    pub created_at: Seq<char>,
    pub updated_at: Seq<char>,
    pub tags: Map<Seq<char>, Tag>,
}

impl View for Project {
    type V = ProjectView;

    closed spec fn view(&self) -> ProjectView {
        ProjectView {
            uid: self.uid@,
            name: self.name@,
            description: self.description@,
            created_at: self.created_at@,
            updated_at: self.updated_at@,
            tags: self.tags@,
        }
    }
}

impl Clone for Project {
    fn clone(&self) -> (copy: Self)
        ensures
            copy@ == self@,
    {
        let tags = self.tags.clone();
        proof {
            assert(tags.items() =~= self.tags.items());
        }
        Project {
            uid: self.uid.clone(),
            name: self.name.clone(),
            description: self.description.clone(),
            created_at: self.created_at.clone(),
            updated_at: self.updated_at.clone(),
            tags,
        }
    }
}

impl Project {
    /// The project with the given contents and no tag.
    pub fn from_parts(
        uid: String,
        name: &str,
        description: &str,
        created_at: String,
        updated_at: String,
    ) -> (project: Self)
        ensures
            project@ == (ProjectView {
                uid: uid@,
                name: name@,
                description: description@,
                created_at: created_at@,
                updated_at: updated_at@,
                tags: Map::empty(),
            }),
    {
        Project {
            uid,
            name: String::from_str(name),
            description: String::from_str(description),
            created_at,
            updated_at,
            tags: KeyedList::new(),
        }
    }

    /// A new project: `name` and `description` as given, a fresh identifier,
    /// the current time as the time of creation and of the last change, and
    /// no tag.
    pub fn new(name: &str, description: &str) -> (project: Self)
        ensures
            project@.name == name@,
            project@.description == description@,
            project@.tags == Map::<Seq<char>, Tag>::empty(),
            is_ulid(project@.uid),
    {
        let uid = new_ulid();
        let created_at = now_rfc3339();
        let updated_at = now_rfc3339();
        Project::from_parts(uid, name, description, created_at, updated_at)
    }

    /// The identifier of the project.
    pub fn uid(&self) -> (uid: &String)
        ensures
            uid@ == self@.uid,
    {
        &self.uid
    }

    /// The name of the project.
    pub fn name(&self) -> (name: &String)
        ensures
            name@ == self@.name,
    {
        &self.name
    }

    /// What the project is about.
    pub fn description(&self) -> (description: &String)
        ensures
            description@ == self@.description,
    {
        &self.description
    }

    /// When the project was created.
    pub fn created_at(&self) -> (created_at: &String)
        ensures
            created_at@ == self@.created_at,
    {
        &self.created_at
    }

    /// When the project was last changed.
    pub fn updated_at(&self) -> (updated_at: &String)
        ensures
            updated_at@ == self@.updated_at,
    {
        &self.updated_at
    }

    /// The tags of the project, each found by its identifier.
    pub fn tags(&self) -> (tags: &KeyedList<Tag>)
        ensures
            tags@ == self@.tags,
    {
        &self.tags
    }

    /// Changes the name.  Nothing else changes.
    pub fn set_name(&mut self, name: String)
        ensures
            final(self)@ == (ProjectView { name: name@, ..old(self)@ }),
    {
        self.name = name;
    }

    /// Changes the description.  Nothing else changes.
    pub fn set_description(&mut self, description: String)
        ensures
            final(self)@ == (ProjectView { description: description@, ..old(self)@ }),
    {
        self.description = description;
    }

    /// Changes the time of the last change.  Nothing else changes.
    pub fn set_updated_at(&mut self, updated_at: String)
        ensures
            final(self)@ == (ProjectView { updated_at: updated_at@, ..old(self)@ }),
    {
        self.updated_at = updated_at;
    }

    /// Adds `tag`.  A tag with the same identifier that was there before is
    /// replaced.  Nothing else changes.
    pub fn add_tag(&mut self, tag: Tag)
        ensures
            final(self)@ == (ProjectView { tags: old(self)@.tags.insert(tag@.uid, tag), ..old(self)@ }),
    {
        self.tags.put(tag);
    }

    /// Removes the tag that has the identifier of `tag`, if there is one.
    /// Nothing else changes.
    pub fn remove_tag(&mut self, tag: &Tag)
        ensures
            final(self)@ == (ProjectView { tags: old(self)@.tags.remove(tag@.uid), ..old(self)@ }),
    {
        let _ = self.tags.remove(tag.uid());
    }
}

/// A project as it is listed at the root of a workspace: where it lies, and
/// its tags in a fixed order.
#[derive(Debug, PartialEq, Eq)]
pub struct ProjectRoot {
    uid: String,
    name: String,
    path: String,
    description: String,
    created_at: String,
    updated_at: String,
    tags: Vec<Tag>,
}

/// What a [`ProjectRoot`] holds.
pub struct ProjectRootView {
    pub uid: Seq<char>,
    pub name: Seq<char>,
    pub path: Seq<char>,
    pub description: Seq<char>,
    pub created_at: Seq<char>,
    pub updated_at: Seq<char>,
    pub tags: Seq<Tag>,
}

impl View for ProjectRoot {
    type V = ProjectRootView;

    closed spec fn view(&self) -> ProjectRootView {
        ProjectRootView {
            uid: self.uid@,
            name: self.name@,
            path: self.path@,
            description: self.description@,
            created_at: self.created_at@,
            updated_at: self.updated_at@,
            tags: self.tags@,
        }
    }
}

impl Clone for ProjectRoot {
    fn clone(&self) -> (copy: Self)
        ensures
            copy@ == self@,
    {
        let tags = self.tags.clone();
        proof {
            assert(tags@ =~= self.tags@);
        }
        ProjectRoot {
            uid: self.uid.clone(),
            name: self.name.clone(),
            path: self.path.clone(),
            description: self.description.clone(),
            created_at: self.created_at.clone(),
            updated_at: self.updated_at.clone(),
            tags,
        }
    }
}

impl ProjectRoot {
    /// The entry with the given contents.
    pub fn new(
        uid: String,
        name: String,
        path: String,
        description: String,
        created_at: String,
        updated_at: String,
        tags: Vec<Tag>,
    ) -> (root: Self)
        ensures
            root@ == (ProjectRootView {
                uid: uid@,
                name: name@,
                path: path@,
                description: description@,
                created_at: created_at@,
                updated_at: updated_at@,
                tags: tags@,
            }),
    {
        ProjectRoot { uid, name, path, description, created_at, updated_at, tags }
    }

    /// The identifier of the project.
    pub fn uid(&self) -> (uid: &String)
        ensures
            uid@ == self@.uid,
    {
        &self.uid
    }

    /// The name of the project.
    pub fn name(&self) -> (name: &String)
        ensures
            name@ == self@.name,
    {
        &self.name
    }

    /// Where the project lies.
    pub fn path(&self) -> (path: &String)
        ensures
            path@ == self@.path,
    {
        &self.path
    }

    /// What the project is about.
    pub fn description(&self) -> (description: &String)
        ensures
            description@ == self@.description,
    {
        &self.description
    }

    /// When the project was created.
    pub fn created_at(&self) -> (created_at: &String)
        ensures
            created_at@ == self@.created_at,
    {
        &self.created_at
    }

    /// When the project was last changed.
    pub fn updated_at(&self) -> (updated_at: &String)
        ensures
            updated_at@ == self@.updated_at,
    {
        &self.updated_at
    }

    /// The tags of the project.
    pub fn tags(&self) -> (tags: &Vec<Tag>)
        ensures
            tags@ == self@.tags,
    {
        &self.tags
    }
}

} // verus!

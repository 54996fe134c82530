//! The metadata record of a file or folder: what it is, where it lies, its
//! tags and its relations to other records.

use std::time::SystemTime;
use vstd::prelude::*;
use vstd::std_specs::cmp::PartialEqSpecImpl;
use crate::keyed::{Keyed, KeyedList};
use crate::stamp::{is_ulid, new_ulid};

verus! {

/// What a record stands for.
#[derive(Clone, Copy, Debug, PartialEq, Eq, Hash, Structural)]
pub enum MetaType {
    File,
    Folder,
    Special,
}

/// The kind of content that a file holds.
#[derive(Clone, Copy, Debug, PartialEq, Eq, Hash, Structural)]
pub enum FileType {
    Image,
    Video,
    Audio,
    Document,
    ProjectFile,
    Model,
    Other,
}

/// How one record relates to another.
#[derive(Clone, Copy, Debug, PartialEq, Eq, Hash, Structural)]
pub enum RelationType {
    Parent,
    Child,
    Sibling,
    Related,
}

/// A relation to the record whose identifier is `uid`.
#[derive(Debug, Eq, Hash)]
pub struct Relation {
    uid: String,
    relation_type: RelationType,
}

/// What a [`Relation`] holds.
pub struct RelationView {
    pub uid: Seq<char>,
    pub relation_type: RelationType,
}

impl View for Relation {
    type V = RelationView;

    closed spec fn view(&self) -> RelationView {
        RelationView { uid: self.uid@, relation_type: self.relation_type }
    }
}

impl Clone for Relation {
    fn clone(&self) -> (copy: Self)
        ensures
            copy == *self,
    {
        Relation { uid: self.uid.clone(), relation_type: self.relation_type }
    }
}

impl PartialEq for Relation {
    fn eq(&self, other: &Self) -> (equal: bool) {
        self.uid == other.uid && self.relation_type == other.relation_type
    }
}

impl PartialEqSpecImpl for Relation {
    open spec fn obeys_eq_spec() -> bool {
        true
    }

    open spec fn eq_spec(&self, other: &Self) -> bool {
        self@ == other@
    }
}

impl Keyed for Relation {
    closed spec fn key(&self) -> Seq<char> {
        self.uid@
    }

    fn key_text(&self) -> (text: &String) {
        &self.uid
    }
}

impl Relation {
    /// A relation is found by the identifier of the record it points to.
    pub proof fn lemma_key(&self)
        ensures
            self.key() == self@.uid,
    {
    }

    /// The relation of kind `relation_type` to the record `uid`.
    pub fn new(uid: String, relation_type: RelationType) -> (relation: Self)
        ensures
            relation@ == (RelationView { uid: uid@, relation_type }),
    {
        Relation { uid, relation_type }
    }

    /// A relation of kind `relation_type` under a fresh identifier.
    pub fn generate(relation_type: RelationType) -> (relation: Self)
        ensures
            relation@.relation_type == relation_type,
            is_ulid(relation@.uid),
    {
        Relation::new(new_ulid(), relation_type)
    }

    /// The identifier of the record that the relation points to.
    pub fn uid(&self) -> (uid: &String)
        ensures
            uid@ == self@.uid,
    {
        &self.uid
    }

    /// The kind of the relation.
    pub fn relation_type(&self) -> (relation_type: &RelationType)
        ensures
            *relation_type == self@.relation_type,
    {
        &self.relation_type
    }

    /// Changes the kind of the relation and leaves the identifier.
    pub fn set_relation_type(&mut self, relation_type: RelationType)
        ensures
            final(self)@ == (RelationView { relation_type, ..old(self)@ }),
    {
        self.relation_type = relation_type;
    }
}

/// The properties of a record that has none of its own.
#[derive(Clone, Copy, Debug, PartialEq, Eq, Structural)]
pub struct MetaProperty {}

/// The metadata of a file or folder, with properties of type `P`.
#[derive(Debug)]
pub struct Metafile<P = MetaProperty> {
    uid: String,
    name: String,
    raw_path: String,
    ext: String,
    meta_type: MetaType,
    size: u64,
    created_at: SystemTime,
    modified_at: SystemTime,
    tags: KeyedList<String>,
    relations: KeyedList<Relation>,
    property: P,
}

/// What a [`Metafile`] holds: its tags as a set, and its relations as a map
/// from the identifier of the other record to the relation.
pub struct MetafileView<P> {
    pub uid: Seq<char>,
    pub name: Seq<char>,
    pub raw_path: Seq<char>,
    pub ext: Seq<char>,
    pub meta_type: MetaType,
    pub size: u64,
    pub created_at: SystemTime,
    pub modified_at: SystemTime,
    pub tags: Set<Seq<char>>,
    pub relations: Map<Seq<char>, Relation>,
    pub property: P,
}

impl<P> View for Metafile<P> {
    type V = MetafileView<P>;

    closed spec fn view(&self) -> MetafileView<P> {
        MetafileView {
            uid: self.uid@,
            name: self.name@,
            raw_path: self.raw_path@,
            ext: self.ext@,
            meta_type: self.meta_type,
            size: self.size,
            created_at: self.created_at,
            modified_at: self.modified_at,
            tags: self.tags@.dom(),
            relations: self.relations@,
            property: self.property,
        }
    }
}

impl<P> Metafile<P> {
    /// A record with the given contents, no tag and no relation.
    pub fn new(
        uid: String,
        name: String,
        raw_path: String,
        ext: String,
        meta_type: MetaType,
        size: u64,
        created_at: SystemTime,
        modified_at: SystemTime,
        property: P,
    ) -> (meta: Self)
        ensures
            meta@ == (MetafileView {
                uid: uid@,
                name: name@,
                raw_path: raw_path@,
                ext: ext@,
                meta_type,
                size,
                created_at,
                modified_at,
                tags: Set::empty(),
                relations: Map::empty(),
                property,
            }),
    {
        let meta = Metafile {
            uid,
            name,
            raw_path,
            ext,
            meta_type,
            size,
            created_at,
            modified_at,
            tags: KeyedList::new(),
            relations: KeyedList::new(),
            property,
        };
        proof {
            assert(meta.tags@.dom() =~= Set::<Seq<char>>::empty());
        }
        meta
    }

    /// The identifier of the record.
    pub fn uid(&self) -> (uid: &String)
        ensures
            uid@ == self@.uid,
    {
        &self.uid
    }

    /// The name of the file or folder.
    pub fn name(&self) -> (name: &String)
        ensures
            name@ == self@.name,
    {
        &self.name
    }

    /// The full path of the file or folder.
    pub fn raw_path(&self) -> (raw_path: &String)
        ensures
            raw_path@ == self@.raw_path,
    {
        &self.raw_path
    }

    /// The extension of the file's name; empty where it has none.
    pub fn ext(&self) -> (ext: &String)
        ensures
            ext@ == self@.ext,
    {
        &self.ext
    }

    /// What the record stands for.
    pub fn meta_type(&self) -> (meta_type: &MetaType)
        ensures
            *meta_type == self@.meta_type,
    {
        &self.meta_type
    }

    /// The size of the file in bytes.
    pub fn size(&self) -> (size: &u64)
        ensures
            *size == self@.size,
    {
        &self.size
    }

    /// When the file or folder was created.
    pub fn created_at(&self) -> (created_at: &SystemTime)
        ensures
            *created_at == self@.created_at,
    {
        &self.created_at
    }

    /// When the file or folder was last modified.
    pub fn modified_at(&self) -> (modified_at: &SystemTime)
        ensures
            *modified_at == self@.modified_at,
    {
        &self.modified_at
    }

    /// The tags of the record.
    pub fn tags(&self) -> (tags: &KeyedList<String>)
        ensures
            tags@.dom() == self@.tags,
    {
        &self.tags
    }

    /// The relations of the record, each found by the identifier of the
    /// record it points to.
    pub fn relations(&self) -> (relations: &KeyedList<Relation>)
        ensures
            relations@ == self@.relations,
    {
        &self.relations
    }

    /// The properties of the record.
    pub fn property(&self) -> (property: &P)
        ensures
            *property == self@.property,
    {
        &self.property
    }

    /// Adds `relation`.  A relation to the same record that was there before
    /// is replaced.  Nothing else changes.
    pub fn add_relation(&mut self, relation: Relation)
        ensures
            final(self)@ == (MetafileView {
                relations: old(self)@.relations.insert(relation@.uid, relation),
                ..old(self)@
            }),
    {
        self.relations.put(relation);
    }

    /// Removes the relation to the record that `relation` points to, if there
    /// is one.  Nothing else changes.
    pub fn remove_relation(&mut self, relation: &Relation)
        ensures
            final(self)@ == (MetafileView {
                relations: old(self)@.relations.remove(relation@.uid),
                ..old(self)@
            }),
    {
        let _ = self.relations.remove(relation.uid());
    }

    /// Adds `tag` to the tags; a tag that is there already stays once.
    /// Nothing else changes.
    pub fn add_tag(&mut self, tag: String)
        ensures
            final(self)@ == (MetafileView { tags: old(self)@.tags.insert(tag@), ..old(self)@ }),
    {
        self.tags.put(tag);
        proof {
            assert(self.tags@.dom() =~= old(self).tags@.dom().insert(tag@));
        }
    }

    /// Removes `tag` from the tags, if it is there.  Nothing else changes.
    pub fn remove_tag(&mut self, tag: &String)
        ensures
            final(self)@ == (MetafileView { tags: old(self)@.tags.remove(tag@), ..old(self)@ }),
    {
        let _ = self.tags.remove(tag);
        proof {
            assert(self.tags@.dom() =~= old(self).tags@.dom().remove(tag@));
        }
    }

    /// Replaces the properties.  Nothing else changes.
    pub fn update_property(&mut self, property: P)
        ensures
            final(self)@ == (MetafileView { property, ..old(self)@ }),
    {
        self.property = property;
    }

    /// Sets the time of the last modification to the current time.  Nothing
    /// else changes.  The clock decides which time that is, so the contract
    /// leaves it open; [`Metafile::update_modified_exact`] says what is set
    /// for each time.
    pub fn update_modified_now(&mut self)
        ensures
            final(self)@ == (MetafileView { modified_at: final(self)@.modified_at, ..old(self)@ }),
    {
        self.update_modified_exact(SystemTime::now());
    }

    /// Sets the time of the last modification to `time`.  Nothing else
    /// changes.
    pub fn update_modified_exact(&mut self, time: SystemTime)
        ensures
            final(self)@ == (MetafileView { modified_at: time, ..old(self)@ }),
    {
        self.modified_at = time;
    }
}

} // verus!

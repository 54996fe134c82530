use progest::keyed::KeyedList;
use progest::metafile::{FileType, MetaProperty, MetaType, Metafile, Relation, RelationType};
use progest::project::{Project, ProjectRoot, Tag};
use std::time::{Duration, SystemTime};

const BASE32: &str = "0123456789ABCDEFGHJKMNPQRSTVWXYZ";

fn is_ulid(text: &str) -> bool {
    text.chars().count() == 26 && text.chars().all(|c| BASE32.contains(c))
}

fn sample_meta() -> Metafile {
    Metafile::new(
        "01D39ZY06FGSCTVN4T2V9PKHFZ".to_string(),
        "test.txt".to_string(),
        "/data/test.txt".to_string(),
        "txt".to_string(),
        MetaType::File,
        12,
        SystemTime::UNIX_EPOCH,
        SystemTime::UNIX_EPOCH + Duration::from_secs(60),
        MetaProperty {},
    )
}

// keyed list

#[test]
fn keyed_list_starts_empty() {
    let list: KeyedList<String> = KeyedList::new();
    assert_eq!(list.len(), 0);
    assert!(list.entries().is_empty());
    assert!(!list.contains_key(&"a".to_string()));
    assert_eq!(list.get(&"a".to_string()), None);
}

#[test]
fn keyed_list_holds_each_key_once() {
    let mut list: KeyedList<String> = KeyedList::new();
    list.put("b".to_string());
    list.put("a".to_string());
    list.put("b".to_string());
    assert_eq!(list.len(), 2);
    assert_eq!(list.entries(), &vec!["b".to_string(), "a".to_string()]);
    assert!(list.contains_key(&"a".to_string()));
    assert!(list.contains_key(&"b".to_string()));
    assert!(!list.contains_key(&"c".to_string()));
    assert_eq!(list.get(&"a".to_string()), Some(&"a".to_string()));
}

#[test]
fn keyed_list_replaces_in_place() {
    let mut list: KeyedList<Tag> = KeyedList::new();
    list.put(Tag::with_uid("1".to_string(), "one"));
    list.put(Tag::with_uid("2".to_string(), "two"));
    list.put(Tag::with_uid("1".to_string(), "uno"));
    assert_eq!(list.len(), 2);
    assert_eq!(list.entries()[0], Tag::with_uid("1".to_string(), "uno"));
    assert_eq!(list.entries()[1], Tag::with_uid("2".to_string(), "two"));
    assert_eq!(list.get(&"1".to_string()).unwrap().name(), "uno");
}

#[test]
fn keyed_list_removes_by_key() {
    let mut list: KeyedList<String> = KeyedList::new();
    list.put("a".to_string());
    list.put("b".to_string());
    list.put("c".to_string());
    assert_eq!(list.remove(&"b".to_string()), Some("b".to_string()));
    assert_eq!(list.remove(&"b".to_string()), None);
    assert_eq!(list.remove(&"x".to_string()), None);
    assert_eq!(list.entries(), &vec!["a".to_string(), "c".to_string()]);
    assert_eq!(list.len(), 2);
}

#[test]
fn keyed_list_clone_holds_the_same_items() {
    let mut list: KeyedList<String> = KeyedList::new();
    list.put("a".to_string());
    list.put("b".to_string());
    let copy = list.clone();
    list.put("c".to_string());
    assert_eq!(copy.entries(), &vec!["a".to_string(), "b".to_string()]);
    assert_eq!(list.len(), 3);
}

// tags and relations

#[test]
fn tag_with_uid_keeps_its_parts() {
    let mut tag = Tag::with_uid("01D39ZY06FGSCTVN4T2V9PKHFZ".to_string(), "draft");
    assert_eq!(tag.uid(), "01D39ZY06FGSCTVN4T2V9PKHFZ");
    assert_eq!(tag.name(), "draft");
    tag.set_name("final".to_string());
    assert_eq!(tag.uid(), "01D39ZY06FGSCTVN4T2V9PKHFZ");
    assert_eq!(tag.name(), "final");
}

#[test]
fn new_tag_has_a_ulid() {
    let tag = Tag::new("draft");
    assert_eq!(tag.name(), "draft");
    assert!(is_ulid(tag.uid()), "{:?}", tag.uid());
}

#[test]
fn relation_keeps_its_parts() {
    let mut relation = Relation::new("other".to_string(), RelationType::Parent);
    assert_eq!(relation.uid(), "other");
    assert_eq!(relation.relation_type(), &RelationType::Parent);
    relation.set_relation_type(RelationType::Sibling);
    assert_eq!(relation.uid(), "other");
    assert_eq!(relation.relation_type(), &RelationType::Sibling);
}

#[test]
fn generated_relation_has_a_ulid() {
    let relation = Relation::generate(RelationType::Related);
    assert_eq!(relation.relation_type(), &RelationType::Related);
    assert!(is_ulid(relation.uid()), "{:?}", relation.uid());
}

#[test]
fn kinds_are_told_apart() {
    assert_ne!(MetaType::File, MetaType::Folder);
    assert_ne!(MetaType::Folder, MetaType::Special);
    assert_ne!(FileType::Image, FileType::Video);
    assert_ne!(FileType::ProjectFile, FileType::Other);
    assert_ne!(RelationType::Parent, RelationType::Child);
    assert_eq!(RelationType::Related, RelationType::Related);
}

// file records

#[test]
fn new_record_keeps_its_parts() {
    let meta = sample_meta();
    assert_eq!(meta.uid(), "01D39ZY06FGSCTVN4T2V9PKHFZ");
    assert_eq!(meta.name(), "test.txt");
    assert_eq!(meta.raw_path(), "/data/test.txt");
    assert_eq!(meta.ext(), "txt");
    assert_eq!(meta.meta_type(), &MetaType::File);
    assert_eq!(meta.size(), &12);
    assert_eq!(meta.created_at(), &SystemTime::UNIX_EPOCH);
    assert_eq!(meta.modified_at(), &(SystemTime::UNIX_EPOCH + Duration::from_secs(60)));
    assert_eq!(meta.property(), &MetaProperty {});
    assert_eq!(meta.tags().len(), 0);
    assert_eq!(meta.relations().len(), 0);
}

#[test]
fn record_tags_are_a_set() {
    let mut meta = sample_meta();
    meta.add_tag("red".to_string());
    meta.add_tag("blue".to_string());
    meta.add_tag("red".to_string());
    assert_eq!(meta.tags().len(), 2);
    assert!(meta.tags().contains_key(&"red".to_string()));
    assert!(meta.tags().contains_key(&"blue".to_string()));
    meta.remove_tag(&"red".to_string());
    assert_eq!(meta.tags().len(), 1);
    assert!(!meta.tags().contains_key(&"red".to_string()));
    meta.remove_tag(&"green".to_string());
    assert_eq!(meta.tags().entries(), &vec!["blue".to_string()]);
    assert_eq!(meta.name(), "test.txt");
    assert_eq!(meta.relations().len(), 0);
}

#[test]
fn record_relations_are_found_by_uid() {
    let mut meta = sample_meta();
    meta.add_relation(Relation::new("a".to_string(), RelationType::Parent));
    meta.add_relation(Relation::new("b".to_string(), RelationType::Child));
    meta.add_relation(Relation::new("a".to_string(), RelationType::Sibling));
    assert_eq!(meta.relations().len(), 2);
    assert_eq!(
        meta.relations().get(&"a".to_string()),
        Some(&Relation::new("a".to_string(), RelationType::Sibling))
    );
    meta.remove_relation(&Relation::new("a".to_string(), RelationType::Related));
    assert_eq!(meta.relations().len(), 1);
    assert_eq!(meta.relations().get(&"a".to_string()), None);
    assert_eq!(
        meta.relations().get(&"b".to_string()),
        Some(&Relation::new("b".to_string(), RelationType::Child))
    );
    meta.remove_relation(&Relation::new("x".to_string(), RelationType::Related));
    assert_eq!(meta.relations().len(), 1);
    assert_eq!(meta.tags().len(), 0);
}

#[test]
fn record_times_and_property_are_updated() {
    let mut meta: Metafile<u32> = Metafile::new(
        "id".to_string(),
        "dir".to_string(),
        "/data/dir".to_string(),
        String::new(),
        MetaType::Folder,
        0,
        SystemTime::UNIX_EPOCH,
        SystemTime::UNIX_EPOCH,
        7,
    );
    meta.update_property(8);
    assert_eq!(meta.property(), &8);
    let then = SystemTime::UNIX_EPOCH + Duration::from_secs(3600);
    meta.update_modified_exact(then);
    assert_eq!(meta.modified_at(), &then);
    assert_eq!(meta.created_at(), &SystemTime::UNIX_EPOCH);
    let before = SystemTime::now();
    meta.update_modified_now();
    assert!(*meta.modified_at() >= before - Duration::from_secs(1));
    assert_eq!(meta.created_at(), &SystemTime::UNIX_EPOCH);
    assert_eq!(meta.meta_type(), &MetaType::Folder);
    assert_eq!(meta.ext(), "");
    assert_eq!(meta.property(), &8);
}

// projects

#[test]
fn project_from_parts_keeps_its_parts() {
    let mut project = Project::from_parts(
        "id".to_string(),
        "film",
        "a short film",
        "2024-01-01T00:00:00+00:00".to_string(),
        "2024-01-02T00:00:00+00:00".to_string(),
    );
    assert_eq!(project.uid(), "id");
    assert_eq!(project.name(), "film");
    assert_eq!(project.description(), "a short film");
    assert_eq!(project.created_at(), "2024-01-01T00:00:00+00:00");
    assert_eq!(project.updated_at(), "2024-01-02T00:00:00+00:00");
    assert_eq!(project.tags().len(), 0);
    project.set_name("movie".to_string());
    project.set_description("a long film".to_string());
    project.set_updated_at("2024-01-03T00:00:00+00:00".to_string());
    assert_eq!(project.uid(), "id");
    assert_eq!(project.name(), "movie");
    assert_eq!(project.description(), "a long film");
    assert_eq!(project.created_at(), "2024-01-01T00:00:00+00:00");
    assert_eq!(project.updated_at(), "2024-01-03T00:00:00+00:00");
}

#[test]
fn new_project_has_a_ulid_and_no_tags() {
    let project = Project::new("film", "a short film");
    assert_eq!(project.name(), "film");
    assert_eq!(project.description(), "a short film");
    assert!(is_ulid(project.uid()), "{:?}", project.uid());
    assert_eq!(project.tags().len(), 0);
    assert!(project.created_at().contains('T'));
    assert!(project.updated_at().contains('T'));
}

#[test]
fn project_tags_are_found_by_uid() {
    let mut project = Project::new("film", "a short film");
    let draft = Tag::with_uid("1".to_string(), "draft");
    let second = Tag::with_uid("2".to_string(), "final");
    project.add_tag(draft.clone());
    project.add_tag(second.clone());
    project.add_tag(Tag::with_uid("1".to_string(), "sketch"));
    assert_eq!(project.tags().len(), 2);
    assert_eq!(project.tags().get(&"1".to_string()).unwrap().name(), "sketch");
    assert_eq!(project.tags().get(&"2".to_string()), Some(&second));
    project.remove_tag(&draft);
    assert_eq!(project.tags().len(), 1);
    assert_eq!(project.tags().get(&"1".to_string()), None);
    project.remove_tag(&draft);
    assert_eq!(project.tags().len(), 1);
    assert_eq!(project.name(), "film");
    let copy = project.clone();
    assert_eq!(copy.uid(), project.uid());
    assert_eq!(copy.tags().entries(), project.tags().entries());
}

#[test]
fn it_works() {
    let tags = vec![Tag::with_uid("1".to_string(), "draft")];
    let root = ProjectRoot::new(
        "id".to_string(),
        "film".to_string(),
        "/projects/film".to_string(),
        "a short film".to_string(),
        "2024-01-01T00:00:00+00:00".to_string(),
        "2024-01-02T00:00:00+00:00".to_string(),
        tags.clone(),
    );
    assert_eq!(root.uid(), "id");
    assert_eq!(root.name(), "film");
    assert_eq!(root.path(), "/projects/film");
    assert_eq!(root.description(), "a short film");
    assert_eq!(root.created_at(), "2024-01-01T00:00:00+00:00");
    assert_eq!(root.updated_at(), "2024-01-02T00:00:00+00:00");
    assert_eq!(root.tags(), &tags);
    assert_eq!(root.clone(), root);
}
